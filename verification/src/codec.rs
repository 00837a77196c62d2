//! Wire-message codec: the JSON-RPC text frames of the solver bus, written
//! and read by this crate's own rules, stated over sequences of characters.
//!
//! Escaping covers the quote, the backslash and every control character;
//! all other characters pass through unchanged.

use vstd::prelude::*;
use vstd::string::StrSliceExecFns;
use vstd::string::StringExecFns;

use crate::types::Intent;
use crate::types::IntentMessage;
use crate::types::QuoteOutput;
use crate::types::SignaturePayload;
use crate::types::SignedIntentData;
use crate::types::SwapIntent;
use crate::types::SwapQuote;

verus! {

// ---------------------------------------------------------------------------
// String escaping
// ---------------------------------------------------------------------------

/// The hexadecimal digit character for `d`.
pub open spec fn hex_digit_char(d: int) -> char {
    if d == 0 {
        '0'
    } else if d == 1 {
        '1'
    } else if d == 2 {
        '2'
    } else if d == 3 {
        '3'
    } else if d == 4 {
        '4'
    } else if d == 5 {
        '5'
    } else if d == 6 {
        '6'
    } else if d == 7 {
        '7'
    } else if d == 8 {
        '8'
    } else if d == 9 {
        '9'
    } else if d == 10 {
        'a'
    } else if d == 11 {
        'b'
    } else if d == 12 {
        'c'
    } else if d == 13 {
        'd'
    } else if d == 14 {
        'e'
    } else {
        'f'
    }
}

/// How one character is written inside a JSON string literal: the named
/// escapes, `\u00XX` for the remaining control characters, and the
/// character itself otherwise.
#[verifier::opaque]
pub open spec fn escaped_char(c: char) -> Seq<char> {
    if c == '"' {
        seq!['\\', '"']
    } else if c == '\\' {
        seq!['\\', '\\']
    } else if c == '\n' {
        seq!['\\', 'n']
    } else if c == '\r' {
        seq!['\\', 'r']
    } else if c == '\t' {
        seq!['\\', 't']
    } else if (c as u32) < 0x20 {
        seq!['\\', 'u', '0', '0', hex_digit_char((c as u32) as int / 16), hex_digit_char(
            (c as u32) as int % 16,
        )]
    } else {
        seq![c]
    }
}

/// The escaped form of the first `n` characters of `s`.
pub open spec fn escaped_prefix(s: Seq<char>, n: int) -> Seq<char>
    decreases n,
{
    if n <= 0 {
        Seq::empty()
    } else {
        escaped_prefix(s, n - 1) + escaped_char(s[n - 1])
    }
}

/// The escaped form of a whole string body.
pub open spec fn json_escaped(s: Seq<char>) -> Seq<char> {
    escaped_prefix(s, s.len() as int)
}

/// A string value as it stands in a frame: quoted and escaped.
pub open spec fn json_string(s: Seq<char>) -> Seq<char> {
    "\""@ + json_escaped(s) + "\""@
}

/// A character that needs no escaping and ends no string: neither quote,
/// backslash nor a control character.
pub open spec fn plain_char(c: char) -> bool {
    c != '"' && c != '\\' && (c as u32) >= 0x20
}

/// Text that survives escaping unchanged.
pub open spec fn plain_text(s: Seq<char>) -> bool {
    forall|i: int| 0 <= i < s.len() ==> plain_char(#[trigger] s[i])
}

/// Escaping is the identity on plain text.
pub proof fn lemma_plain_escape(s: Seq<char>)
    requires
        plain_text(s),
    ensures
        json_escaped(s) == s,
{
    lemma_plain_escape_prefix(s, s.len() as int);
    assert(json_escaped(s) =~= s);
}

proof fn lemma_plain_escape_prefix(s: Seq<char>, n: int)
    requires
        n <= s.len(),
        plain_text(s),
    ensures
        escaped_prefix(s, n) =~= s.subrange(0, if n <= 0 { 0 } else { n }),
    decreases n,
{
    if n > 0 {
        reveal(escaped_char);
        lemma_plain_escape_prefix(s, n - 1);
    }
}

/// Relies on `String::push`: appends exactly one character.
#[verifier::external_body]
fn push_char(s: &mut String, c: char)
    ensures
        final(s)@ == old(s)@ + seq![c],
{
    s.push(c);
}

/// Escape a string body for inclusion in a frame.
pub fn escape_json(s: &str) -> (r: String)
    ensures
        r@ == json_escaped(s@),
{
    let n = s.unicode_len();
    let mut out = String::new();
    let mut i: usize = 0;
    while i < n
        invariant
            i <= n,
            n == s@.len(),
            out@ == escaped_prefix(s@, i as int),
        decreases n - i,
    {
        let c = s.get_char(i);
        if c == '"' {
            push_char(&mut out, '\\');
            push_char(&mut out, '"');
        } else if c == '\\' {
            push_char(&mut out, '\\');
            push_char(&mut out, '\\');
        } else if c == '\n' {
            push_char(&mut out, '\\');
            push_char(&mut out, 'n');
        } else if c == '\r' {
            push_char(&mut out, '\\');
            push_char(&mut out, 'r');
        } else if c == '\t' {
            push_char(&mut out, '\\');
            push_char(&mut out, 't');
        } else if (c as u32) < 0x20 {
            push_char(&mut out, '\\');
            push_char(&mut out, 'u');
            push_char(&mut out, '0');
            push_char(&mut out, '0');
            let v = c as u32;
            let hi = v / 16;
            let lo = v % 16;
            proof {
                assert(hi as int == (c as u32) as int / 16);
                assert(lo as int == (c as u32) as int % 16);
            }
            push_char(&mut out, hex_char(hi));
            push_char(&mut out, hex_char(lo));
        } else {
            push_char(&mut out, c);
        }
        proof {
            reveal(escaped_char);
            assert(out@ =~= escaped_prefix(s@, i + 1));
        }
        i = i + 1;
    }
    out
}

/// A quoted, escaped string value.
pub fn write_json_string(s: &str) -> (r: String)
    ensures
        r@ == json_string(s@),
{
    let mut out = String::from_str("\"");
    let body = escape_json(s);
    out.append(body.as_str());
    out.append("\"");
    proof {
        assert(out@ =~= json_string(s@));
    }
    out
}

// ---------------------------------------------------------------------------
// Decimal rendering
// ---------------------------------------------------------------------------

/// The decimal digit character for `d`.
pub open spec fn dec_digit_char(d: int) -> char {
    if d == 0 {
        '0'
    } else if d == 1 {
        '1'
    } else if d == 2 {
        '2'
    } else if d == 3 {
        '3'
    } else if d == 4 {
        '4'
    } else if d == 5 {
        '5'
    } else if d == 6 {
        '6'
    } else if d == 7 {
        '7'
    } else if d == 8 {
        '8'
    } else {
        '9'
    }
}

/// The decimal rendering of a non-negative integer, no leading zeros.
pub open spec fn dec_text(n: int) -> Seq<char>
    decreases n,
{
    if n < 10 {
        seq![dec_digit_char(n)]
    } else {
        dec_text(n / 10) + seq![dec_digit_char(n % 10)]
    }
}

fn hex_char(d: u32) -> (c: char)
    requires
        d < 16,
    ensures
        c == hex_digit_char(d as int),
{
    if d == 0 {
        '0'
    } else if d == 1 {
        '1'
    } else if d == 2 {
        '2'
    } else if d == 3 {
        '3'
    } else if d == 4 {
        '4'
    } else if d == 5 {
        '5'
    } else if d == 6 {
        '6'
    } else if d == 7 {
        '7'
    } else if d == 8 {
        '8'
    } else if d == 9 {
        '9'
    } else if d == 10 {
        'a'
    } else if d == 11 {
        'b'
    } else if d == 12 {
        'c'
    } else if d == 13 {
        'd'
    } else if d == 14 {
        'e'
    } else {
        'f'
    }
}

fn digit_char(d: u64) -> (c: char)
    requires
        d < 10,
    ensures
        c == dec_digit_char(d as int),
{
    if d == 0 {
        '0'
    } else if d == 1 {
        '1'
    } else if d == 2 {
        '2'
    } else if d == 3 {
        '3'
    } else if d == 4 {
        '4'
    } else if d == 5 {
        '5'
    } else if d == 6 {
        '6'
    } else if d == 7 {
        '7'
    } else if d == 8 {
        '8'
    } else {
        '9'
    }
}

/// Render an unsigned integer in decimal.
pub fn u64_to_decimal(n: u64) -> (r: String)
    ensures
        r@ == dec_text(n as int),
    decreases n,
{
    if n < 10 {
        let mut s = String::new();
        push_char(&mut s, digit_char(n));
        proof {
            assert(s@ =~= dec_text(n as int));
        }
        s
    } else {
        let mut s = u64_to_decimal(n / 10);
        push_char(&mut s, digit_char(n % 10));
        s
    }
}

// ---------------------------------------------------------------------------
// Outbound frame texts
// ---------------------------------------------------------------------------

/// An optional string value: a quoted string, or `null`.
pub open spec fn opt_string_text(o: Option<String>) -> Seq<char> {
    match o {
        Option::None => "null"@,
        Option::Some(s) => json_string(s@),
    }
}

/// One token-diff entry, `"asset":"amount"`.
pub open spec fn diff_entry_text(e: (String, String)) -> Seq<char> {
    json_string(e.0@) + ":"@ + json_string(e.1@)
}

/// The first `n` token-diff entries, comma separated.
pub open spec fn diff_body_text(entries: Seq<(String, String)>, n: int) -> Seq<char>
    decreases n,
{
    if n <= 0 {
        Seq::empty()
    } else if n == 1 {
        diff_entry_text(entries[0])
    } else {
        diff_body_text(entries, n - 1) + ","@ + diff_entry_text(entries[n - 1])
    }
}

/// A token-diff map as a JSON object.
pub open spec fn diff_text(entries: Seq<(String, String)>) -> Seq<char> {
    "{"@ + diff_body_text(entries, entries.len() as int) + "}"@
}

/// One sub-intent object.
pub open spec fn intent_text(it: Intent) -> Seq<char> {
    "{\"intent\":"@ + json_string(it.intent@) + ",\"diff\":"@ + diff_text(it.diff@) + "}"@
}

/// The first `n` sub-intents, comma separated.
pub open spec fn intents_body_text(v: Seq<Intent>, n: int) -> Seq<char>
    decreases n,
{
    if n <= 0 {
        Seq::empty()
    } else if n == 1 {
        intent_text(v[0])
    } else {
        intents_body_text(v, n - 1) + ","@ + intent_text(v[n - 1])
    }
}

/// The canonical text form of an intent message: the text that is signed.
pub open spec fn intent_message_text(m: IntentMessage) -> Seq<char> {
    "{\"signer_id\":"@ + json_string(m.signer_id@) + ",\"deadline\":{\"timestamp\":"@ + dec_text(
        m.deadline.timestamp as int,
    ) + "},\"intents\":["@ + intents_body_text(m.intents@, m.intents@.len() as int) + "]}"@
}

/// The computed amounts as a JSON object.
pub open spec fn quote_output_text(q: QuoteOutput) -> Seq<char> {
    "{\"amount_in\":"@ + opt_string_text(q.amount_in) + ",\"amount_out\":"@ + opt_string_text(
        q.amount_out,
    ) + "}"@
}

/// The signature payload as a JSON object.
pub open spec fn payload_text(p: SignaturePayload) -> Seq<char> {
    "{\"message\":"@ + json_string(p.message@) + ",\"nonce\":"@ + json_string(p.nonce@)
        + ",\"recipient\":"@ + json_string(p.recipient@) + ",\"callback_url\":"@ + opt_string_text(
        p.callback_url,
    ) + "}"@
}

/// The signed-data envelope as a JSON object.
pub open spec fn signed_data_text(d: SignedIntentData) -> Seq<char> {
    "{\"standard\":"@ + json_string(d.standard@) + ",\"payload\":"@ + payload_text(d.payload)
        + ",\"signature\":"@ + json_string(d.signature@) + ",\"public_key\":"@ + json_string(
        d.public_key@,
    ) + "}"@
}

/// A swap quote as a JSON object.
pub open spec fn swap_quote_text(q: SwapQuote) -> Seq<char> {
    "{\"quote_id\":"@ + json_string(q.quote_id@) + ",\"quote_output\":"@ + quote_output_text(
        q.quote_output,
    ) + ",\"signed_data\":"@ + signed_data_text(q.signed_data) + "}"@
}

/// The outbound quote-response frame.
pub open spec fn quote_response_frame_text(q: SwapQuote) -> Seq<char> {
    "{\"jsonrpc\":\"2.0\",\"id\":2,\"method\":\"quote_response\",\"params\":["@ + swap_quote_text(
        q,
    ) + "]}"@
}

/// The outbound subscribe-request frame.
pub open spec fn subscribe_request_text() -> Seq<char> {
    "{\"jsonrpc\":\"2.0\",\"id\":1,\"method\":\"subscribe\",\"params\":[\"quote\"]}"@
}

fn write_opt_string(o: &Option<String>) -> (r: String)
    ensures
        r@ == opt_string_text(*o),
{
    match o {
        Option::None => String::from_str("null"),
        Option::Some(s) => write_json_string(s.as_str()),
    }
}

/// A token-diff map written as a JSON object, entries in list order.
pub fn write_diff(entries: &Vec<(String, String)>) -> (r: String)
    ensures
        r@ == diff_text(entries@),
{
    let mut out = String::from_str("{");
    proof {
        assert(out@ =~= "{"@ + diff_body_text(entries@, 0));
    }
    let mut i: usize = 0;
    while i < entries.len()
        invariant
            i <= entries@.len(),
            out@ == "{"@ + diff_body_text(entries@, i as int),
        decreases entries@.len() - i,
    {
        if i > 0 {
            out.append(",");
        }
        let ks = write_json_string(entries[i].0.as_str());
        out.append(ks.as_str());
        out.append(":");
        let vs = write_json_string(entries[i].1.as_str());
        out.append(vs.as_str());
        proof {
            assert(out@ =~= "{"@ + diff_body_text(entries@, i + 1));
        }
        i = i + 1;
    }
    out.append("}");
    proof {
        assert(out@ =~= diff_text(entries@));
    }
    out
}

/// One sub-intent written as a JSON object.
pub fn write_intent(it: &Intent) -> (r: String)
    ensures
        r@ == intent_text(*it),
{
    let mut out = String::from_str("{\"intent\":");
    let tag = write_json_string(it.intent.as_str());
    out.append(tag.as_str());
    out.append(",\"diff\":");
    let d = write_diff(&it.diff);
    out.append(d.as_str());
    out.append("}");
    proof {
        assert(out@ =~= intent_text(*it));
    }
    out
}

/// The canonical text of an intent message: what the signer is asked to sign.
pub fn encode_intent_message(m: &IntentMessage) -> (r: String)
    ensures
        r@ == intent_message_text(*m),
{
    let mut out = String::from_str("{\"signer_id\":");
    let signer = write_json_string(m.signer_id.as_str());
    out.append(signer.as_str());
    out.append(",\"deadline\":{\"timestamp\":");
    let ts = u64_to_decimal(m.deadline.timestamp);
    out.append(ts.as_str());
    out.append("},\"intents\":[");
    proof {
        assert(out@ =~= "{\"signer_id\":"@ + json_string(m.signer_id@)
            + ",\"deadline\":{\"timestamp\":"@ + dec_text(m.deadline.timestamp as int)
            + "},\"intents\":["@ + intents_body_text(m.intents@, 0));
    }
    let mut i: usize = 0;
    while i < m.intents.len()
        invariant
            i <= m.intents@.len(),
            out@ == "{\"signer_id\":"@ + json_string(m.signer_id@)
                + ",\"deadline\":{\"timestamp\":"@ + dec_text(m.deadline.timestamp as int)
                + "},\"intents\":["@ + intents_body_text(m.intents@, i as int),
        decreases m.intents@.len() - i,
    {
        if i > 0 {
            out.append(",");
        }
        let one = write_intent(&m.intents[i]);
        out.append(one.as_str());
        proof {
            assert(out@ =~= "{\"signer_id\":"@ + json_string(m.signer_id@)
                + ",\"deadline\":{\"timestamp\":"@ + dec_text(m.deadline.timestamp as int)
                + "},\"intents\":["@ + intents_body_text(m.intents@, i + 1));
        }
        i = i + 1;
    }
    out.append("]}");
    proof {
        assert(out@ =~= intent_message_text(*m));
    }
    out
}

/// The outbound subscribe-request frame.
pub fn encode_subscribe_request() -> (r: String)
    ensures
        r@ == subscribe_request_text(),
{
    String::from_str("{\"jsonrpc\":\"2.0\",\"id\":1,\"method\":\"subscribe\",\"params\":[\"quote\"]}")
}

fn write_quote_output(q: &QuoteOutput) -> (r: String)
    ensures
        r@ == quote_output_text(*q),
{
    let mut out = String::from_str("{\"amount_in\":");
    let ai = write_opt_string(&q.amount_in);
    out.append(ai.as_str());
    out.append(",\"amount_out\":");
    let ao = write_opt_string(&q.amount_out);
    out.append(ao.as_str());
    out.append("}");
    proof {
        assert(out@ =~= quote_output_text(*q));
    }
    out
}

fn write_payload(p: &SignaturePayload) -> (r: String)
    ensures
        r@ == payload_text(*p),
{
    let mut out = String::from_str("{\"message\":");
    let msg = write_json_string(p.message.as_str());
    out.append(msg.as_str());
    out.append(",\"nonce\":");
    let nn = write_json_string(p.nonce.as_str());
    out.append(nn.as_str());
    out.append(",\"recipient\":");
    let rc = write_json_string(p.recipient.as_str());
    out.append(rc.as_str());
    out.append(",\"callback_url\":");
    let cb = write_opt_string(&p.callback_url);
    out.append(cb.as_str());
    out.append("}");
    proof {
        assert(out@ =~= payload_text(*p));
    }
    out
}

fn write_signed_data(d: &SignedIntentData) -> (r: String)
    ensures
        r@ == signed_data_text(*d),
{
    let mut out = String::from_str("{\"standard\":");
    let st = write_json_string(d.standard.as_str());
    out.append(st.as_str());
    out.append(",\"payload\":");
    let pl = write_payload(&d.payload);
    out.append(pl.as_str());
    out.append(",\"signature\":");
    let sg = write_json_string(d.signature.as_str());
    out.append(sg.as_str());
    out.append(",\"public_key\":");
    let pk = write_json_string(d.public_key.as_str());
    out.append(pk.as_str());
    out.append("}");
    proof {
        assert(out@ =~= signed_data_text(*d));
    }
    out
}

fn write_swap_quote(q: &SwapQuote) -> (r: String)
    ensures
        r@ == swap_quote_text(*q),
{
    let mut out = String::from_str("{\"quote_id\":");
    let qid = write_json_string(q.quote_id.as_str());
    out.append(qid.as_str());
    out.append(",\"quote_output\":");
    let qo = write_quote_output(&q.quote_output);
    out.append(qo.as_str());
    out.append(",\"signed_data\":");
    let sd = write_signed_data(&q.signed_data);
    out.append(sd.as_str());
    out.append("}");
    proof {
        assert(out@ =~= swap_quote_text(*q));
    }
    out
}

/// The outbound quote-response frame carrying one swap quote.
pub fn encode_quote_response(q: &SwapQuote) -> (r: String)
    ensures
        r@ == quote_response_frame_text(*q),
{
    let mut out = String::from_str(
        "{\"jsonrpc\":\"2.0\",\"id\":2,\"method\":\"quote_response\",\"params\":[",
    );
    let body = write_swap_quote(q);
    out.append(body.as_str());
    out.append("]}");
    proof {
        assert(out@ =~= quote_response_frame_text(*q));
    }
    out
}

// ---------------------------------------------------------------------------
// Inbound frame grammar: tokens
// ---------------------------------------------------------------------------

/// The literal `lit` stands in `t` at position `i`.
pub open spec fn match_at(t: Seq<char>, i: int, lit: Seq<char>) -> bool {
    0 <= i && i + lit.len() <= t.len() && t.subrange(i, i + lit.len() as int) == lit
}

/// The position of the closing quote at or after `i`: the first `"` reached
/// over plain characters only.
pub open spec fn scan_quote(t: Seq<char>, i: int) -> Option<int>
    decreases t.len() - i,
{
    if i < 0 || i >= t.len() {
        None
    } else if t[i] == '"' {
        Some(i)
    } else if plain_char(t[i]) {
        scan_quote(t, i + 1)
    } else {
        None
    }
}

/// Where a quote stands after a plain span, the scan finds it.
pub proof fn lemma_scan_quote_finds(t: Seq<char>, i: int, j: int)
    requires
        0 <= i <= j < t.len(),
        t[j] == '"',
        forall|k: int| i <= k < j ==> plain_char(#[trigger] t[k]),
    ensures
        scan_quote(t, i) == Some(j),
    decreases j - i,
{
    if i < j {
        assert(plain_char(t[i]));
        lemma_scan_quote_finds(t, i + 1, j);
    }
}

/// What a successful scan says of the text: the quote stands at the found
/// position and everything before it is plain.
pub proof fn lemma_scan_quote_sound(t: Seq<char>, i: int)
    requires
        0 <= i,
    ensures
        scan_quote(t, i) matches Some(j) ==> i <= j < t.len() && t[j] == '"' && forall|k: int|
            i <= k < j ==> plain_char(#[trigger] t[k]),
    decreases t.len() - i,
{
    if i < t.len() && t[i] != '"' && plain_char(t[i]) {
        lemma_scan_quote_sound(t, i + 1);
    }
}

/// A whitespace character between tokens.
pub open spec fn is_ws_char(c: char) -> bool {
    c == ' ' || c == '\t' || c == '\n' || c == '\r'
}

/// A decimal digit.
pub open spec fn is_digit_char(c: char) -> bool {
    0x30 <= (c as u32) <= 0x39
}

/// The first non-digit position at or after `i`.
pub open spec fn scan_digits(t: Seq<char>, i: int) -> int
    decreases t.len() - i,
{
    if 0 <= i < t.len() && is_digit_char(t[i]) {
        scan_digits(t, i + 1)
    } else {
        i
    }
}

/// One token of a frame.
pub ghost enum TokenS {
    LBrace,
    RBrace,
    Colon,
    Comma,
    Text(Seq<char>),
    Number(Seq<char>),
    Null,
}

/// Prepend a token to a tokenization that may have failed.
pub open spec fn cons_token(tok: TokenS, rest: Option<Seq<TokenS>>) -> Option<Seq<TokenS>> {
    match rest {
        Option::Some(r) => Option::Some(seq![tok] + r),
        Option::None => Option::None,
    }
}

/// The token sequence of a frame from position `i` on: punctuation, plain
/// quoted strings, unsigned integers and `null`, with any whitespace
/// between tokens. Escape sequences and other value forms are not part of
/// this protocol's frames and fail the tokenization.
pub open spec fn tokenize(t: Seq<char>, i: int) -> Option<Seq<TokenS>>
    decreases t.len() - i,
{
    if i < 0 || i > t.len() {
        None
    } else if i == t.len() {
        Some(Seq::empty())
    } else if is_ws_char(t[i]) {
        tokenize(t, i + 1)
    } else if t[i] == '{' {
        cons_token(TokenS::LBrace, tokenize(t, i + 1))
    } else if t[i] == '}' {
        cons_token(TokenS::RBrace, tokenize(t, i + 1))
    } else if t[i] == ':' {
        cons_token(TokenS::Colon, tokenize(t, i + 1))
    } else if t[i] == ',' {
        cons_token(TokenS::Comma, tokenize(t, i + 1))
    } else if t[i] == '"' {
        match scan_quote(t, i + 1) {
            Option::Some(j) => if i < j && j < t.len() {
                cons_token(TokenS::Text(t.subrange(i + 1, j)), tokenize(t, j + 1))
            } else {
                None
            },
            Option::None => None,
        }
    } else if is_digit_char(t[i]) {
        let e = scan_digits(t, i);
        if i < e && e <= t.len() {
            cons_token(TokenS::Number(t.subrange(i, e)), tokenize(t, e))
        } else {
            None
        }
    } else if i + 4 <= t.len() && match_at(t, i, "null"@) {
        cons_token(TokenS::Null, tokenize(t, i + 4))
    } else {
        None
    }
}

// ---------------------------------------------------------------------------
// Inbound frame grammar: objects over tokens
// ---------------------------------------------------------------------------

/// A leaf member value.
pub ghost enum LeafS {
    LText(Seq<char>),
    LNumber(Seq<char>),
    LNull,
}

/// A member value of the outer object: a leaf, or one flat object.
pub ghost enum ValueS {
    VLeaf(LeafS),
    VObj(Seq<(Seq<char>, LeafS)>),
}

/// The leaf a single token stands for, if any.
pub open spec fn leaf_of_token(tok: TokenS) -> Option<LeafS> {
    match tok {
        TokenS::Text(s) => Some(LeafS::LText(s)),
        TokenS::Number(s) => Some(LeafS::LNumber(s)),
        TokenS::Null => Some(LeafS::LNull),
        _ => None,
    }
}

/// Members of a flat object, from the token after `{` or a comma up to and
/// including the closing brace.
pub open spec fn parse_flat_members(toks: Seq<TokenS>, i: int) -> Option<
    (Seq<(Seq<char>, LeafS)>, int),
>
    decreases toks.len() - i,
{
    if i < 0 || i + 4 > toks.len() {
        None
    } else {
        match toks[i] {
            TokenS::Text(key) => if !(toks[i + 1] is Colon) {
                None
            } else {
                match leaf_of_token(toks[i + 2]) {
                    Option::None => None,
                    Option::Some(leaf) => if toks[i + 3] is Comma {
                        match parse_flat_members(toks, i + 4) {
                            Option::Some((rest, end)) => Some((seq![(key, leaf)] + rest, end)),
                            Option::None => None,
                        }
                    } else if toks[i + 3] is RBrace {
                        Some((seq![(key, leaf)], i + 4))
                    } else {
                        None
                    },
                }
            },
            _ => None,
        }
    }
}

/// Members of the outer object: leaf values, or one nested flat object.
pub open spec fn parse_outer_members(toks: Seq<TokenS>, i: int) -> Option<
    (Seq<(Seq<char>, ValueS)>, int),
>
    decreases toks.len() - i,
{
    if i < 0 || i + 4 > toks.len() {
        None
    } else {
        match toks[i] {
            TokenS::Text(key) => if !(toks[i + 1] is Colon) {
                None
            } else {
                let value_end: Option<(ValueS, int)> = match leaf_of_token(toks[i + 2]) {
                    Option::Some(leaf) => Some((ValueS::VLeaf(leaf), i + 3)),
                    Option::None => if toks[i + 2] is LBrace {
                        match parse_flat_members(toks, i + 3) {
                            Option::Some((inner, e)) => Some((ValueS::VObj(inner), e)),
                            Option::None => None,
                        }
                    } else {
                        None
                    },
                };
                match value_end {
                    Option::None => None,
                    Option::Some((value, next)) => if i + 2 < next && next < toks.len() {
                        if toks[next] is Comma {
                            match parse_outer_members(toks, next + 1) {
                                Option::Some((rest, end)) => Some(
                                    (seq![(key, value)] + rest, end),
                                ),
                                Option::None => None,
                            }
                        } else if toks[next] is RBrace {
                            Some((seq![(key, value)], next + 1))
                        } else {
                            None
                        }
                    } else {
                        None
                    },
                }
            },
            _ => None,
        }
    }
}

/// The first member under `key`, if any.
pub open spec fn find_leaf(ms: Seq<(Seq<char>, LeafS)>, key: Seq<char>) -> Option<LeafS>
    decreases ms.len(),
{
    if ms.len() <= 0 {
        None
    } else if ms[0].0 == key {
        Some(ms[0].1)
    } else {
        find_leaf(ms.skip(1), key)
    }
}

/// The first member under `key`, if any.
pub open spec fn find_value(ms: Seq<(Seq<char>, ValueS)>, key: Seq<char>) -> Option<ValueS>
    decreases ms.len(),
{
    if ms.len() <= 0 {
        None
    } else if ms[0].0 == key {
        Some(ms[0].1)
    } else {
        find_value(ms.skip(1), key)
    }
}

// ---------------------------------------------------------------------------
// The two inbound frames
// ---------------------------------------------------------------------------

/// The canonical ack frame around a plain subscription id, as this crate
/// would render it.
pub open spec fn ack_text(id: Seq<char>) -> Seq<char> {
    "{\"jsonrpc\":\"2.0\",\"id\":1,\"result\":\""@ + id + "\"}"@
}

/// The subscription id of an ack frame, if `t` is one: a JSON-RPC object,
/// in any member order and whitespace, whose members are exactly
/// `jsonrpc` (the string `2.0`), `id` (the number `1`) and `result` (the
/// id, a string).
pub open spec fn spec_parse_ack(t: Seq<char>) -> Option<Seq<char>> {
    match tokenize(t, 0) {
        Option::None => None,
        Option::Some(toks) => if toks.len() > 0 && toks[0] is LBrace {
            match parse_outer_members(toks, 1) {
                Option::Some((ms, end)) => if end == toks.len() && ms.len() == 3 && find_value(
                    ms,
                    "jsonrpc"@,
                ) == Some(ValueS::VLeaf(LeafS::LText("2.0"@))) && find_value(ms, "id"@) == Some(
                    ValueS::VLeaf(LeafS::LNumber("1"@)),
                ) {
                    match find_value(ms, "result"@) {
                        Option::Some(ValueS::VLeaf(LeafS::LText(id))) => Some(id),
                        _ => None,
                    }
                } else {
                    None
                },
                Option::None => None,
            }
        } else {
            None
        },
    }
}

/// The fields carried by one intent-push frame.
pub ghost struct PushFields {
    pub subscription: Seq<char>,
    pub quote_id: Seq<char>,
    pub asset_in: Seq<char>,
    pub asset_out: Seq<char>,
    pub exact_amount_in: Option<Seq<char>>,
    pub exact_amount_out: Option<Seq<char>>,
}

/// All carried field texts are plain.
pub open spec fn push_fields_plain(f: PushFields) -> bool {
    &&& plain_text(f.subscription)
    &&& plain_text(f.quote_id)
    &&& plain_text(f.asset_in)
    &&& plain_text(f.asset_out)
    &&& (f.exact_amount_in matches Some(s) ==> plain_text(s))
    &&& (f.exact_amount_out matches Some(s) ==> plain_text(s))
}

/// An optional value as it stands in the canonical push frame.
pub open spec fn value_text(v: Option<Seq<char>>) -> Seq<char> {
    match v {
        Option::None => "null"@,
        Option::Some(s) => "\""@ + s + "\""@,
    }
}

/// The canonical push frame around the given fields, as this crate would
/// render it.
pub open spec fn push_text(f: PushFields) -> Seq<char> {
    "{\"jsonrpc\":\"2.0\",\"method\":\"subscribe\",\"params\":{\"subscription\":\""@
        + f.subscription + "\",\"quote_id\":\""@ + f.quote_id
        + "\",\"defuse_asset_identifier_in\":\""@ + f.asset_in
        + "\",\"defuse_asset_identifier_out\":\""@ + f.asset_out + "\",\"exact_amount_in\":"@
        + value_text(f.exact_amount_in) + ",\"exact_amount_out\":"@ + value_text(
        f.exact_amount_out,
    ) + "}}"@
}

/// A required string member of the params object.
pub open spec fn text_field(ms: Seq<(Seq<char>, LeafS)>, key: Seq<char>) -> Option<Seq<char>> {
    match find_leaf(ms, key) {
        Option::Some(LeafS::LText(s)) => Some(s),
        _ => None,
    }
}

/// An optional amount member: absent or `null` means no amount on this
/// side; a string is the amount; anything else is malformed.
pub open spec fn amount_field(ms: Seq<(Seq<char>, LeafS)>, key: Seq<char>) -> Option<
    Option<Seq<char>>,
> {
    match find_leaf(ms, key) {
        Option::None => Some(Option::None),
        Option::Some(LeafS::LNull) => Some(Option::None),
        Option::Some(LeafS::LText(s)) => Some(Option::Some(s)),
        Option::Some(LeafS::LNumber(_)) => None,
    }
}

/// The fields of a push params object.
pub open spec fn interpret_params(inner: Seq<(Seq<char>, LeafS)>) -> Option<PushFields> {
    match (
        text_field(inner, "subscription"@),
        text_field(inner, "quote_id"@),
        text_field(inner, "defuse_asset_identifier_in"@),
        text_field(inner, "defuse_asset_identifier_out"@),
        amount_field(inner, "exact_amount_in"@),
        amount_field(inner, "exact_amount_out"@),
    ) {
        (
            Option::Some(subscription),
            Option::Some(quote_id),
            Option::Some(asset_in),
            Option::Some(asset_out),
            Option::Some(exact_amount_in),
            Option::Some(exact_amount_out),
        ) => Some(
            PushFields {
                subscription,
                quote_id,
                asset_in,
                asset_out,
                exact_amount_in,
                exact_amount_out,
            },
        ),
        _ => None,
    }
}

/// The fields of a push frame, if `t` is one: a JSON-RPC object, in any
/// member order and whitespace, whose members are exactly `jsonrpc` (the
/// string `2.0`), `method` (the string `subscribe`) and `params` (an
/// object carrying the subscription id and the flattened intent; within
/// it, further members are tolerated and the first member under a key
/// counts).
pub open spec fn spec_parse_push(t: Seq<char>) -> Option<PushFields> {
    match tokenize(t, 0) {
        Option::None => None,
        Option::Some(toks) => if toks.len() > 0 && toks[0] is LBrace {
            match parse_outer_members(toks, 1) {
                Option::Some((ms, end)) => if end == toks.len() && ms.len() == 3 && find_value(
                    ms,
                    "jsonrpc"@,
                ) == Some(ValueS::VLeaf(LeafS::LText("2.0"@))) && find_value(ms, "method"@) == Some(
                    ValueS::VLeaf(LeafS::LText("subscribe"@)),
                ) {
                    match find_value(ms, "params"@) {
                        Option::Some(ValueS::VObj(inner)) => interpret_params(inner),
                        _ => None,
                    }
                } else {
                    None
                },
                Option::None => None,
            }
        } else {
            None
        },
    }
}

// ---------------------------------------------------------------------------
// Executable parsers
// ---------------------------------------------------------------------------

fn match_lit(t: &str, i: usize, lit: &str) -> (r: bool)
    ensures
        r == match_at(t@, i as int, lit@),
{
    let tl = t.unicode_len();
    let ll = lit.unicode_len();
    if i > tl || ll > tl - i {
        return false;
    }
    let mut k: usize = 0;
    while k < ll
        invariant
            k <= ll,
            ll == lit@.len(),
            tl == t@.len(),
            i + ll <= tl,
            forall|j: int| 0 <= j < k ==> t@[i + j] == lit@[j],
        decreases ll - k,
    {
        if t.get_char(i + k) != lit.get_char(k) {
            proof {
                assert(t@.subrange(i as int, i + ll as int)[k as int] == t@[i + k]);
            }
            return false;
        }
        k = k + 1;
    }
    proof {
        assert(t@.subrange(i as int, i + ll as int) =~= lit@);
    }
    true
}

/// Two string slices hold the same characters.
fn str_eq(a: &str, b: &str) -> (r: bool)
    ensures
        r == (a@ == b@),
{
    let la = a.unicode_len();
    let lb = b.unicode_len();
    if la != lb {
        return false;
    }
    let r = match_lit(a, 0, b);
    proof {
        assert(a@.subrange(0, la as int) =~= a@);
    }
    r
}

fn scan_quote_exec(t: &str, i: usize) -> (r: Option<usize>)
    ensures
        match r {
            Some(j) => scan_quote(t@, i as int) == Some(j as int) && i <= j < t@.len(),
            None => scan_quote(t@, i as int) is None,
        },
{
    let tl = t.unicode_len();
    if i >= tl {
        return None;
    }
    let mut j: usize = i;
    while j < tl
        invariant
            i <= j,
            j <= tl,
            tl == t@.len(),
            scan_quote(t@, i as int) == scan_quote(t@, j as int),
        decreases tl - j,
    {
        let c = t.get_char(j);
        if c == '"' {
            return Some(j);
        }
        if c == '\\' || (c as u32) < 0x20 {
            return None;
        }
        j = j + 1;
    }
    None
}

/// A quoted plain string starting right at `i`: yields the body and the
/// position after the closing quote.
fn take_string(t: &str, i: usize) -> (r: Option<(String, usize)>)
    ensures
        match r {
            Some(p) => {
                &&& scan_quote(t@, i as int) == Some(p.1 - 1int)
                &&& p.0@ == t@.subrange(i as int, p.1 - 1int)
                &&& i < p.1 <= t@.len()
            },
            None => scan_quote(t@, i as int) is None,
        },
{
    let tl = t.unicode_len();
    match scan_quote_exec(t, i) {
        Some(j) => {
            let s = t.substring_char(i, j);
            Some((String::from_str(s), j + 1))
        },
        None => None,
    }
}

fn scan_digits_exec(t: &str, i: usize) -> (e: usize)
    ensures
        e as int == scan_digits(t@, i as int),
        i <= e,
        i < t@.len() ==> e <= t@.len(),
{
    let tl = t.unicode_len();
    let mut j: usize = i;
    while j < tl
        invariant
            i <= j,
            j <= tl || j == i,
            tl == t@.len(),
            scan_digits(t@, i as int) == scan_digits(t@, j as int),
        decreases tl - j,
    {
        let c = t.get_char(j);
        let v = c as u32;
        if !(0x30 <= v && v <= 0x39) {
            return j;
        }
        j = j + 1;
    }
    j
}

/// One token of a frame, on the executable side.
pub enum Token {
    LBrace,
    RBrace,
    Colon,
    Comma,
    Text(String),
    Number(String),
    Null,
}

/// The token a `Token` stands for.
pub open spec fn token_view(tok: Token) -> TokenS {
    match tok {
        Token::LBrace => TokenS::LBrace,
        Token::RBrace => TokenS::RBrace,
        Token::Colon => TokenS::Colon,
        Token::Comma => TokenS::Comma,
        Token::Text(s) => TokenS::Text(s@),
        Token::Number(s) => TokenS::Number(s@),
        Token::Null => TokenS::Null,
    }
}

/// The token sequence a `Vec<Token>` stands for.
pub open spec fn tokens_view(v: Seq<Token>) -> Seq<TokenS>
    decreases v.len(),
{
    if v.len() <= 0 {
        Seq::empty()
    } else {
        seq![token_view(v[0])] + tokens_view(v.skip(1))
    }
}

proof fn lemma_tokens_view_cons(tok: Token, v: Seq<Token>)
    ensures
        tokens_view(seq![tok] + v) == seq![token_view(tok)] + tokens_view(v),
{
    let s = seq![tok] + v;
    assert(s[0] == tok);
    assert(s.skip(1) =~= v);
}

proof fn lemma_tokens_view_index(v: Seq<Token>)
    ensures
        tokens_view(v).len() == v.len(),
        forall|j: int| 0 <= j < v.len() ==> tokens_view(v)[j] == token_view(#[trigger] v[j]),
    decreases v.len(),
{
    if v.len() > 0 {
        lemma_tokens_view_index(v.skip(1));
        assert forall|j: int| 0 <= j < v.len() implies tokens_view(v)[j] == token_view(
            #[trigger] v[j],
        ) by {
            if j > 0 {
                assert(v.skip(1)[j - 1] == v[j]);
            }
        }
    }
}

fn cons_front(tok: Token, rest: Option<Vec<Token>>) -> (r: Option<Vec<Token>>)
    ensures
        match rest {
            Some(rv) => r matches Some(v) && v@ == seq![tok] + rv@,
            None => r is None,
        },
{
    match rest {
        Some(mut v) => {
            v.insert(0, tok);
            Some(v)
        },
        None => None,
    }
}

/// The tokens of a frame from position `i` on, exactly when the frame
/// tokenizes.
fn tokenize_exec(t: &str, i: usize) -> (r: Option<Vec<Token>>)
    ensures
        match r {
            Some(v) => tokenize(t@, i as int) == Some(tokens_view(v@)),
            None => tokenize(t@, i as int) is None,
        },
    decreases t@.len() - i,
{
    let tl = t.unicode_len();
    if i >= tl {
        if i == tl {
            let v: Vec<Token> = Vec::new();
            proof {
                assert(tokens_view(v@) =~= Seq::<TokenS>::empty());
            }
            return Some(v);
        }
        return None;
    }
    let c = t.get_char(i);
    if c == ' ' || c == '\t' || c == '\n' || c == '\r' {
        return tokenize_exec(t, i + 1);
    }
    if c == '{' || c == '}' || c == ':' || c == ',' {
        let tok = if c == '{' {
            Token::LBrace
        } else if c == '}' {
            Token::RBrace
        } else if c == ':' {
            Token::Colon
        } else {
            Token::Comma
        };
        let ghost tokg = tok;
        let rest = tokenize_exec(t, i + 1);
        let ghost restg = rest;
        let r = cons_front(tok, rest);
        proof {
            if r is Some {
                lemma_tokens_view_cons(tokg, restg->Some_0@);
            }
        }
        return r;
    }
    if c == '"' {
        match take_string(t, i + 1) {
            Some((s, p)) => {
                let tok = Token::Text(s);
                let ghost tokg = tok;
                let rest = tokenize_exec(t, p);
                let ghost restg = rest;
                let r = cons_front(tok, rest);
                proof {
                    if r is Some {
                        lemma_tokens_view_cons(tokg, restg->Some_0@);
                    }
                }
                return r;
            },
            None => {
                return None;
            },
        }
    }
    let v32 = c as u32;
    if 0x30 <= v32 && v32 <= 0x39 {
        let e = scan_digits_exec(t, i);
        if i < e && e <= tl {
            let s = t.substring_char(i, e);
            let tok = Token::Number(String::from_str(s));
            let ghost tokg = tok;
            let rest = tokenize_exec(t, e);
            let ghost restg = rest;
            let r = cons_front(tok, rest);
            proof {
                if r is Some {
                    lemma_tokens_view_cons(tokg, restg->Some_0@);
                }
            }
            return r;
        }
        return None;
    }
    if tl - i >= 4 && match_lit(t, i, "null") {
        let tok = Token::Null;
        let ghost tokg = tok;
        let rest = tokenize_exec(t, i + 4);
        let ghost restg = rest;
        let r = cons_front(tok, rest);
        proof {
            if r is Some {
                lemma_tokens_view_cons(tokg, restg->Some_0@);
            }
        }
        return r;
    }
    None
}

/// A leaf member value, on the executable side.
pub enum Leaf {
    Text(String),
    Number(String),
    Null,
}

/// The leaf a `Leaf` stands for.
pub open spec fn leaf_view(l: Leaf) -> LeafS {
    match l {
        Leaf::Text(s) => LeafS::LText(s@),
        Leaf::Number(s) => LeafS::LNumber(s@),
        Leaf::Null => LeafS::LNull,
    }
}

/// The members a flat member list stands for.
pub open spec fn leaf_members_view(v: Seq<(String, Leaf)>) -> Seq<(Seq<char>, LeafS)>
    decreases v.len(),
{
    if v.len() <= 0 {
        Seq::empty()
    } else {
        seq![(v[0].0@, leaf_view(v[0].1))] + leaf_members_view(v.skip(1))
    }
}

proof fn lemma_leaf_members_index(v: Seq<(String, Leaf)>)
    ensures
        leaf_members_view(v).len() == v.len(),
        forall|j: int| 0 <= j < v.len() ==> leaf_members_view(v)[j] == (
            (#[trigger] v[j]).0@,
            leaf_view(v[j].1),
        ),
    decreases v.len(),
{
    if v.len() > 0 {
        lemma_leaf_members_index(v.skip(1));
        assert forall|j: int| 0 <= j < v.len() implies leaf_members_view(v)[j] == (
            (#[trigger] v[j]).0@,
            leaf_view(v[j].1),
        ) by {
            if j > 0 {
                assert(v.skip(1)[j - 1] == v[j]);
            }
        }
    }
}

fn leaf_of_token_exec(tok: &Token) -> (r: Option<Leaf>)
    ensures
        match r {
            Some(l) => leaf_of_token(token_view(*tok)) == Some(leaf_view(l)),
            None => leaf_of_token(token_view(*tok)) is None,
        },
{
    match tok {
        Token::Text(s) => Some(Leaf::Text(s.clone())),
        Token::Number(s) => Some(Leaf::Number(s.clone())),
        Token::Null => Some(Leaf::Null),
        _ => None,
    }
}

/// Members of a flat object, exactly as the grammar reads them.
fn parse_flat_members_exec(toks: &Vec<Token>, i: usize) -> (r: Option<
    (Vec<(String, Leaf)>, usize),
>)
    ensures
        match r {
            Some(p) => parse_flat_members(tokens_view(toks@), i as int) == Some(
                (leaf_members_view(p.0@), p.1 as int),
            ) && p.1 <= toks@.len(),
            None => parse_flat_members(tokens_view(toks@), i as int) is None,
        },
    decreases toks@.len() - i,
{
    proof {
        lemma_tokens_view_index(toks@);
    }
    let n = toks.len();
    if i > n || n - i < 4 {
        return None;
    }
    let key = match &toks[i] {
        Token::Text(s) => s.clone(),
        _ => {
            return None;
        },
    };
    if !matches!(&toks[i + 1], Token::Colon) {
        return None;
    }
    let leaf = match leaf_of_token_exec(&toks[i + 2]) {
        Some(l) => l,
        None => {
            return None;
        },
    };
    if matches!(&toks[i + 3], Token::Comma) {
        match parse_flat_members_exec(toks, i + 4) {
            Some((mut rest, end)) => {
                let ghost rv = rest@;
                let ghost kv = key@;
                let ghost lv = leaf_view(leaf);
                rest.insert(0, (key, leaf));
                proof {
                    assert(rest@.skip(1) =~= rv);
                    assert(leaf_members_view(rest@) =~= seq![(kv, lv)] + leaf_members_view(rv));
                }
                Some((rest, end))
            },
            None => None,
        }
    } else if matches!(&toks[i + 3], Token::RBrace) {
        let ghost kv = key@;
        let ghost lv = leaf_view(leaf);
        let mut ms: Vec<(String, Leaf)> = Vec::new();
        ms.push((key, leaf));
        proof {
            assert(ms@.skip(1) =~= Seq::<(String, Leaf)>::empty());
            assert(leaf_members_view(Seq::<(String, Leaf)>::empty()) =~= Seq::<
                (Seq<char>, LeafS),
            >::empty());
            assert(leaf_members_view(ms@) =~= seq![(kv, lv)]);
        }
        Some((ms, i + 4))
    } else {
        None
    }
}

/// A member value of the outer object, on the executable side.
pub enum ObjValue {
    Leaf(Leaf),
    Obj(Vec<(String, Leaf)>),
}

/// The value an `ObjValue` stands for.
pub open spec fn value_view(v: ObjValue) -> ValueS {
    match v {
        ObjValue::Leaf(l) => ValueS::VLeaf(leaf_view(l)),
        ObjValue::Obj(ms) => ValueS::VObj(leaf_members_view(ms@)),
    }
}

/// The members an outer member list stands for.
pub open spec fn outer_members_view(v: Seq<(String, ObjValue)>) -> Seq<(Seq<char>, ValueS)>
    decreases v.len(),
{
    if v.len() <= 0 {
        Seq::empty()
    } else {
        seq![(v[0].0@, value_view(v[0].1))] + outer_members_view(v.skip(1))
    }
}

proof fn lemma_outer_members_index(v: Seq<(String, ObjValue)>)
    ensures
        outer_members_view(v).len() == v.len(),
        forall|j: int| 0 <= j < v.len() ==> outer_members_view(v)[j] == (
            (#[trigger] v[j]).0@,
            value_view(v[j].1),
        ),
    decreases v.len(),
{
    if v.len() > 0 {
        lemma_outer_members_index(v.skip(1));
        assert forall|j: int| 0 <= j < v.len() implies outer_members_view(v)[j] == (
            (#[trigger] v[j]).0@,
            value_view(v[j].1),
        ) by {
            if j > 0 {
                assert(v.skip(1)[j - 1] == v[j]);
            }
        }
    }
}

/// Members of the outer object, exactly as the grammar reads them.
fn parse_outer_members_exec(toks: &Vec<Token>, i: usize) -> (r: Option<
    (Vec<(String, ObjValue)>, usize),
>)
    ensures
        match r {
            Some(p) => parse_outer_members(tokens_view(toks@), i as int) == Some(
                (outer_members_view(p.0@), p.1 as int),
            ) && p.1 <= toks@.len(),
            None => parse_outer_members(tokens_view(toks@), i as int) is None,
        },
    decreases toks@.len() - i,
{
    proof {
        lemma_tokens_view_index(toks@);
    }
    let n = toks.len();
    if i > n || n - i < 4 {
        return None;
    }
    let key = match &toks[i] {
        Token::Text(s) => s.clone(),
        _ => {
            return None;
        },
    };
    if !matches!(&toks[i + 1], Token::Colon) {
        return None;
    }
    let leaf_try = leaf_of_token_exec(&toks[i + 2]);
    let (value, next): (ObjValue, usize) = match leaf_try {
        Some(l) => (ObjValue::Leaf(l), i + 3),
        None => {
            if !matches!(&toks[i + 2], Token::LBrace) {
                return None;
            }
            match parse_flat_members_exec(toks, i + 3) {
                Some((inner, e)) => (ObjValue::Obj(inner), e),
                None => {
                    return None;
                },
            }
        },
    };
    if !(i + 2 < next && next < toks.len()) {
        return None;
    }
    if matches!(&toks[next], Token::Comma) {
        match parse_outer_members_exec(toks, next + 1) {
            Some((mut rest, end)) => {
                let ghost rv = rest@;
                let ghost kv = key@;
                let ghost vv = value_view(value);
                rest.insert(0, (key, value));
                proof {
                    assert(rest@.skip(1) =~= rv);
                    assert(outer_members_view(rest@) =~= seq![(kv, vv)] + outer_members_view(rv));
                }
                Some((rest, end))
            },
            None => None,
        }
    } else if matches!(&toks[next], Token::RBrace) {
        let ghost kv = key@;
        let ghost vv = value_view(value);
        let mut ms: Vec<(String, ObjValue)> = Vec::new();
        ms.push((key, value));
        proof {
            assert(ms@.skip(1) =~= Seq::<(String, ObjValue)>::empty());
            assert(outer_members_view(Seq::<(String, ObjValue)>::empty()) =~= Seq::<
                (Seq<char>, ValueS),
            >::empty());
            assert(outer_members_view(ms@) =~= seq![(kv, vv)]);
        }
        Some((ms, next + 1))
    } else {
        None
    }
}

fn find_value_from(ms: &Vec<(String, ObjValue)>, key: &str, i: usize) -> (r: Option<usize>)
    requires
        i <= ms@.len(),
    ensures
        match r {
            Some(ix) => i <= ix < ms@.len() && find_value(
                outer_members_view(ms@).skip(i as int),
                key@,
            ) == Some(value_view(ms@[ix as int].1)),
            None => find_value(outer_members_view(ms@).skip(i as int), key@) is None,
        },
    decreases ms@.len() - i,
{
    proof {
        lemma_outer_members_index(ms@);
    }
    if i >= ms.len() {
        proof {
            assert(outer_members_view(ms@).skip(i as int) =~= Seq::<(Seq<char>, ValueS)>::empty());
        }
        return None;
    }
    proof {
        assert(outer_members_view(ms@).skip(i as int)[0] == outer_members_view(ms@)[i as int]);
    }
    if str_eq(ms[i].0.as_str(), key) {
        return Some(i);
    }
    let r = find_value_from(ms, key, i + 1);
    proof {
        assert(outer_members_view(ms@).skip(i as int).skip(1) =~= outer_members_view(ms@).skip(
            i + 1,
        ));
    }
    r
}

fn find_value_exec(ms: &Vec<(String, ObjValue)>, key: &str) -> (r: Option<usize>)
    ensures
        match r {
            Some(ix) => ix < ms@.len() && find_value(outer_members_view(ms@), key@) == Some(
                value_view(ms@[ix as int].1),
            ),
            None => find_value(outer_members_view(ms@), key@) is None,
        },
{
    proof {
        assert(outer_members_view(ms@).skip(0) =~= outer_members_view(ms@));
    }
    find_value_from(ms, key, 0)
}

fn find_leaf_from(ms: &Vec<(String, Leaf)>, key: &str, i: usize) -> (r: Option<usize>)
    requires
        i <= ms@.len(),
    ensures
        match r {
            Some(ix) => i <= ix < ms@.len() && find_leaf(
                leaf_members_view(ms@).skip(i as int),
                key@,
            ) == Some(leaf_view(ms@[ix as int].1)),
            None => find_leaf(leaf_members_view(ms@).skip(i as int), key@) is None,
        },
    decreases ms@.len() - i,
{
    proof {
        lemma_leaf_members_index(ms@);
    }
    if i >= ms.len() {
        proof {
            assert(leaf_members_view(ms@).skip(i as int) =~= Seq::<(Seq<char>, LeafS)>::empty());
        }
        return None;
    }
    proof {
        assert(leaf_members_view(ms@).skip(i as int)[0] == leaf_members_view(ms@)[i as int]);
    }
    if str_eq(ms[i].0.as_str(), key) {
        return Some(i);
    }
    let r = find_leaf_from(ms, key, i + 1);
    proof {
        assert(leaf_members_view(ms@).skip(i as int).skip(1) =~= leaf_members_view(ms@).skip(
            i + 1,
        ));
    }
    r
}

fn find_leaf_exec(ms: &Vec<(String, Leaf)>, key: &str) -> (r: Option<usize>)
    ensures
        match r {
            Some(ix) => ix < ms@.len() && find_leaf(leaf_members_view(ms@), key@) == Some(
                leaf_view(ms@[ix as int].1),
            ),
            None => find_leaf(leaf_members_view(ms@), key@) is None,
        },
{
    proof {
        assert(leaf_members_view(ms@).skip(0) =~= leaf_members_view(ms@));
    }
    find_leaf_from(ms, key, 0)
}

fn text_field_exec(ms: &Vec<(String, Leaf)>, key: &str) -> (r: Option<String>)
    ensures
        match r {
            Some(s) => text_field(leaf_members_view(ms@), key@) == Some(s@),
            None => text_field(leaf_members_view(ms@), key@) is None,
        },
{
    match find_leaf_exec(ms, key) {
        Some(ix) => match &ms[ix].1 {
            Leaf::Text(s) => Some(s.clone()),
            _ => None,
        },
        None => None,
    }
}

fn amount_field_exec(ms: &Vec<(String, Leaf)>, key: &str) -> (r: Option<Option<String>>)
    ensures
        match r {
            Some(o) => amount_field(leaf_members_view(ms@), key@) == Some(
                match o {
                    Some(s) => Some(s@),
                    None => None,
                },
            ),
            None => amount_field(leaf_members_view(ms@), key@) is None,
        },
{
    match find_leaf_exec(ms, key) {
        None => Some(None),
        Some(ix) => match &ms[ix].1 {
            Leaf::Null => Some(None),
            Leaf::Text(s) => Some(Some(s.clone())),
            Leaf::Number(_) => None,
        },
    }
}

/// The subscription id of an ack frame, exactly when the frame is one.
pub fn parse_subscribe_ack(t: &str) -> (r: Option<String>)
    ensures
        match r {
            Some(id) => spec_parse_ack(t@) == Some(id@),
            None => spec_parse_ack(t@) is None,
        },
{
    let toks = match tokenize_exec(t, 0) {
        Some(v) => v,
        None => {
            return None;
        },
    };
    proof {
        lemma_tokens_view_index(toks@);
    }
    if toks.len() == 0 || !matches!(&toks[0], Token::LBrace) {
        return None;
    }
    let (ms, end) = match parse_outer_members_exec(&toks, 1) {
        Some(p) => p,
        None => {
            return None;
        },
    };
    proof {
        lemma_outer_members_index(ms@);
    }
    if end != toks.len() || ms.len() != 3 {
        return None;
    }
    match find_value_exec(&ms, "jsonrpc") {
        Some(ix) => match &ms[ix].1 {
            ObjValue::Leaf(Leaf::Text(s)) => if !str_eq(s.as_str(), "2.0") {
                return None;
            },
            _ => {
                return None;
            },
        },
        None => {
            return None;
        },
    }
    match find_value_exec(&ms, "id") {
        Some(ix) => match &ms[ix].1 {
            ObjValue::Leaf(Leaf::Number(s)) => if !str_eq(s.as_str(), "1") {
                return None;
            },
            _ => {
                return None;
            },
        },
        None => {
            return None;
        },
    }
    match find_value_exec(&ms, "result") {
        Some(ix) => match &ms[ix].1 {
            ObjValue::Leaf(Leaf::Text(s)) => Some(s.clone()),
            _ => None,
        },
        None => None,
    }
}

/// The subscription id and intent of a push frame, exactly when the frame
/// is one.
pub fn parse_intent_push(t: &str) -> (r: Option<(String, SwapIntent)>)
    ensures
        match r {
            Some(p) => spec_parse_push(t@) == Some(
                PushFields {
                    subscription: p.0@,
                    quote_id: p.1.quote_id@,
                    asset_in: p.1.defuse_asset_identifier_in@,
                    asset_out: p.1.defuse_asset_identifier_out@,
                    exact_amount_in: match p.1.exact_amount_in {
                        Some(s) => Some(s@),
                        None => None,
                    },
                    exact_amount_out: match p.1.exact_amount_out {
                        Some(s) => Some(s@),
                        None => None,
                    },
                },
            ),
            None => spec_parse_push(t@) is None,
        },
{
    let toks = match tokenize_exec(t, 0) {
        Some(v) => v,
        None => {
            return None;
        },
    };
    proof {
        lemma_tokens_view_index(toks@);
    }
    if toks.len() == 0 || !matches!(&toks[0], Token::LBrace) {
        return None;
    }
    let (ms, end) = match parse_outer_members_exec(&toks, 1) {
        Some(p) => p,
        None => {
            return None;
        },
    };
    proof {
        lemma_outer_members_index(ms@);
    }
    if end != toks.len() || ms.len() != 3 {
        return None;
    }
    match find_value_exec(&ms, "jsonrpc") {
        Some(ix) => match &ms[ix].1 {
            ObjValue::Leaf(Leaf::Text(s)) => if !str_eq(s.as_str(), "2.0") {
                return None;
            },
            _ => {
                return None;
            },
        },
        None => {
            return None;
        },
    }
    match find_value_exec(&ms, "method") {
        Some(ix) => match &ms[ix].1 {
            ObjValue::Leaf(Leaf::Text(s)) => if !str_eq(s.as_str(), "subscribe") {
                return None;
            },
            _ => {
                return None;
            },
        },
        None => {
            return None;
        },
    }
    let pix = match find_value_exec(&ms, "params") {
        Some(ix) => ix,
        None => {
            return None;
        },
    };
    let inner: &Vec<(String, Leaf)> = match &ms[pix].1 {
        ObjValue::Obj(v) => v,
        _ => {
            return None;
        },
    };
    let subscription = match text_field_exec(inner, "subscription") {
        Some(s) => s,
        None => {
            return None;
        },
    };
    let quote_id = match text_field_exec(inner, "quote_id") {
        Some(s) => s,
        None => {
            return None;
        },
    };
    let asset_in = match text_field_exec(inner, "defuse_asset_identifier_in") {
        Some(s) => s,
        None => {
            return None;
        },
    };
    let asset_out = match text_field_exec(inner, "defuse_asset_identifier_out") {
        Some(s) => s,
        None => {
            return None;
        },
    };
    let exact_amount_in = match amount_field_exec(inner, "exact_amount_in") {
        Some(o) => o,
        None => {
            return None;
        },
    };
    let exact_amount_out = match amount_field_exec(inner, "exact_amount_out") {
        Some(o) => o,
        None => {
            return None;
        },
    };
    let intent = SwapIntent {
        quote_id,
        defuse_asset_identifier_in: asset_in,
        defuse_asset_identifier_out: asset_out,
        exact_amount_in,
        exact_amount_out,
    };
    Some((subscription, intent))
}

// ---------------------------------------------------------------------------
// Round trip: canonical renderings tokenize back
// ---------------------------------------------------------------------------

/// The canonical rendering of one token, no whitespace.
spec fn render_token(tok: TokenS) -> Seq<char> {
    match tok {
        TokenS::LBrace => "{"@,
        TokenS::RBrace => "}"@,
        TokenS::Colon => ":"@,
        TokenS::Comma => ","@,
        TokenS::Text(s) => "\""@ + s + "\""@,
        TokenS::Number(s) => s,
        TokenS::Null => "null"@,
    }
}

/// The canonical rendering of a token sequence.
spec fn render_tokens(toks: Seq<TokenS>) -> Seq<char>
    decreases toks.len(),
{
    if toks.len() <= 0 {
        Seq::empty()
    } else {
        render_token(toks[0]) + render_tokens(toks.skip(1))
    }
}

/// Tokens whose canonical rendering tokenizes back: text is plain, and the
/// only number is a `1` followed by punctuation.
spec fn token_wf(toks: Seq<TokenS>, k: int) -> bool {
    match toks[k] {
        TokenS::Text(s) => plain_text(s),
        TokenS::Number(s) => s == "1"@ && k + 1 < toks.len() && (toks[k + 1] is Comma || toks[k
            + 1] is RBrace),
        _ => true,
    }
}

spec fn tokens_wf(toks: Seq<TokenS>) -> bool {
    forall|k: int| 0 <= k < toks.len() ==> token_wf(toks, k)
}

/// The canonical rendering of a well-formed token sequence tokenizes back
/// to exactly that sequence.
#[verifier::rlimit(100)]
proof fn lemma_tokenize_render(t: Seq<char>, i: int, toks: Seq<TokenS>)
    requires
        0 <= i <= t.len(),
        t.subrange(i, t.len() as int) == render_tokens(toks),
        tokens_wf(toks),
    ensures
        tokenize(t, i) == Some(toks),
    decreases toks.len(),
{
    reveal_strlit("{");
    reveal_strlit("}");
    reveal_strlit(":");
    reveal_strlit(",");
    reveal_strlit("\"");
    reveal_strlit("null");
    reveal_strlit("1");
    reveal_with_fuel(render_tokens, 2);
    if toks.len() == 0 {
        assert(render_tokens(toks) == Seq::<char>::empty());
        assert(t.len() == i);
        assert(tokenize(t, i) == Some(Seq::<TokenS>::empty()));
        assert(toks =~= Seq::<TokenS>::empty());
    } else {
        let hd = toks[0];
        let rest = toks.skip(1);
        let r0 = render_token(hd);
        assert(render_tokens(toks) == r0 + render_tokens(rest));
        assert(t.len() - i == r0.len() + render_tokens(rest).len());
        assert(token_wf(toks, 0));
        assert(r0.len() >= 1);
        assert forall|k: int| 0 <= k < r0.len() implies t[i + k] == r0[k] by {
            assert(t.subrange(i, t.len() as int)[k] == t[i + k]);
        }
        let i2 = i + r0.len() as int;
        assert(t[i + 0] == r0[0]);
        assert forall|k: int| 0 <= k < render_tokens(rest).len() implies t.subrange(
            i2,
            t.len() as int,
        )[k] == render_tokens(rest)[k] by {
            assert(t.subrange(i, t.len() as int)[r0.len() + k] == t[i + (r0.len() + k)]);
            assert((r0 + render_tokens(rest))[r0.len() + k] == render_tokens(rest)[k]);
            assert(t.subrange(i2, t.len() as int)[k] == t[i2 + k]);
        }
        assert(t.subrange(i2, t.len() as int) =~= render_tokens(rest));
        assert forall|k: int| 0 <= k < rest.len() implies token_wf(rest, k) by {
            assert(token_wf(toks, k + 1));
            assert(rest[k] == toks[k + 1]);
            if k + 2 < toks.len() {
                assert(rest[k + 1] == toks[k + 2]);
            }
        }
        lemma_tokenize_render(t, i2, rest);
        match hd {
            TokenS::LBrace => {
                assert(t[i] == '{');
            },
            TokenS::RBrace => {
                assert(t[i] == '}');
            },
            TokenS::Colon => {
                assert(t[i] == ':');
            },
            TokenS::Comma => {
                assert(t[i] == ',');
            },
            TokenS::Text(s) => {
                assert(t[i] == '"');
                let j = i + 1 + s.len() as int;
                assert(t[i + (1 + s.len() as int)] == r0[1 + s.len() as int]);
                assert(t[j] == '"');
                assert forall|k: int| i + 1 <= k < j implies plain_char(#[trigger] t[k]) by {
                    assert(t[i + (k - i)] == r0[k - i]);
                    assert(r0[k - i] == s[k - i - 1]);
                }
                lemma_scan_quote_finds(t, i + 1, j);
                assert forall|k: int| 0 <= k < s.len() implies t.subrange(i + 1, j)[k] == s[k] by {
                    assert(t[i + (1 + k)] == r0[1 + k]);
                    assert(t.subrange(i + 1, j)[k] == t[i + 1 + k]);
                }
                assert(t.subrange(i + 1, j) =~= s);
            },
            TokenS::Number(s) => {
                assert(t[i] == '1');
                assert(is_digit_char(t[i]));
                assert(rest.len() >= 1);
                assert(render_tokens(rest) == render_token(rest[0]) + render_tokens(
                    rest.skip(1),
                ));
                assert(render_token(rest[0]).len() >= 1) by {
                    assert(token_wf(toks, 1));
                }
                assert(render_tokens(rest)[0] == render_token(rest[0])[0]);
                assert(t.subrange(i2, t.len() as int)[0] == t[i2 + 0]);
                assert(t[i + 1] == render_token(rest[0])[0]);
                assert(t[i + 1] == ',' || t[i + 1] == '}');
                assert(scan_digits(t, i + 1) == i + 1);
                assert(scan_digits(t, i) == i + 1);
                assert(t.subrange(i, i + 1) =~= s);
            },
            TokenS::Null => {
                assert(t[i] == 'n');
                assert forall|k: int| 0 <= k < 4 implies t[i + k] == "null"@[k] by {
                }
                assert(t.subrange(i, i + 4) =~= "null"@);
                assert(match_at(t, i, "null"@));
            },
        }
        assert(tokenize(t, i) == cons_token(hd, Some(rest)));
        assert(seq![hd] + rest =~= toks);
    }
}

/// The token sequence of a canonical ack frame.
spec fn ack_tokens(id: Seq<char>) -> Seq<TokenS> {
    seq![
        TokenS::LBrace,
        TokenS::Text("jsonrpc"@),
        TokenS::Colon,
        TokenS::Text("2.0"@),
        TokenS::Comma,
        TokenS::Text("id"@),
        TokenS::Colon,
        TokenS::Number("1"@),
        TokenS::Comma,
        TokenS::Text("result"@),
        TokenS::Colon,
        TokenS::Text(id),
        TokenS::RBrace,
    ]
}

/// Parsing inverts rendering: the canonical ack frame around a plain id
/// parses back to exactly that id.
#[verifier::rlimit(100)]
pub proof fn lemma_ack_round_trip(id: Seq<char>)
    requires
        plain_text(id),
    ensures
        spec_parse_ack(ack_text(id)) == Some(id),
{
    let t = ack_text(id);
    let toks = ack_tokens(id);
    reveal_strlit("{\"jsonrpc\":\"2.0\",\"id\":1,\"result\":\"");
    reveal_strlit("\"}");
    reveal_strlit("{");
    reveal_strlit("}");
    reveal_strlit(":");
    reveal_strlit(",");
    reveal_strlit("\"");
    reveal_strlit("1");
    reveal_strlit("jsonrpc");
    reveal_strlit("2.0");
    reveal_strlit("id");
    reveal_strlit("result");
    assert(tokens_wf(toks)) by {
        assert forall|k: int| 0 <= k < toks.len() implies token_wf(toks, k) by {
            reveal_strlit("jsonrpc");
            reveal_strlit("2.0");
            reveal_strlit("id");
            reveal_strlit("result");
        }
    }
    assert(t.subrange(0, t.len() as int) =~= render_tokens(toks)) by {
        reveal_with_fuel(render_tokens, 15);
    }
    lemma_tokenize_render(t, 0, toks);
    let ms = seq![
        ("jsonrpc"@, ValueS::VLeaf(LeafS::LText("2.0"@))),
        ("id"@, ValueS::VLeaf(LeafS::LNumber("1"@))),
        ("result"@, ValueS::VLeaf(LeafS::LText(id))),
    ];
    assert(parse_outer_members(toks, 1) == Some((ms, 13int))) by {
        reveal_with_fuel(parse_outer_members, 4);
        assert(parse_outer_members(toks, 9) == Some((seq![ms[2]], 13int)));
        assert(parse_outer_members(toks, 5) == Some((seq![ms[1], ms[2]], 13int)) && seq![ms[1]]
            + seq![ms[2]] =~= seq![ms[1], ms[2]]);
        assert(seq![ms[0]] + seq![ms[1], ms[2]] =~= ms);
    }
    assert(find_value(ms, "jsonrpc"@) == Some(ValueS::VLeaf(LeafS::LText("2.0"@)))) by {
        reveal_with_fuel(find_value, 4);
    }
    assert(find_value(ms, "id"@) == Some(ValueS::VLeaf(LeafS::LNumber("1"@)))) by {
        reveal_with_fuel(find_value, 4);
        assert(ms.skip(1)[0] == ms[1]);
    }
    assert(find_value(ms, "result"@) == Some(ValueS::VLeaf(LeafS::LText(id)))) by {
        reveal_with_fuel(find_value, 4);
        assert(ms.skip(1)[0] == ms[1]);
        assert(ms.skip(1).skip(1)[0] == ms[2]);
    }
}

/// The leaf an optional amount renders as.
spec fn amount_leaf(v: Option<Seq<char>>) -> LeafS {
    match v {
        Option::None => LeafS::LNull,
        Option::Some(s) => LeafS::LText(s),
    }
}

/// The token an optional amount renders as.
spec fn amount_token(v: Option<Seq<char>>) -> TokenS {
    match v {
        Option::None => TokenS::Null,
        Option::Some(s) => TokenS::Text(s),
    }
}

/// The token sequence of a canonical push frame.
spec fn push_tokens(f: PushFields) -> Seq<TokenS> {
    seq![
        TokenS::LBrace,
        TokenS::Text("jsonrpc"@),
        TokenS::Colon,
        TokenS::Text("2.0"@),
        TokenS::Comma,
        TokenS::Text("method"@),
        TokenS::Colon,
        TokenS::Text("subscribe"@),
        TokenS::Comma,
        TokenS::Text("params"@),
        TokenS::Colon,
        TokenS::LBrace,
        TokenS::Text("subscription"@),
        TokenS::Colon,
        TokenS::Text(f.subscription),
        TokenS::Comma,
        TokenS::Text("quote_id"@),
        TokenS::Colon,
        TokenS::Text(f.quote_id),
        TokenS::Comma,
        TokenS::Text("defuse_asset_identifier_in"@),
        TokenS::Colon,
        TokenS::Text(f.asset_in),
        TokenS::Comma,
        TokenS::Text("defuse_asset_identifier_out"@),
        TokenS::Colon,
        TokenS::Text(f.asset_out),
        TokenS::Comma,
        TokenS::Text("exact_amount_in"@),
        TokenS::Colon,
        amount_token(f.exact_amount_in),
        TokenS::Comma,
        TokenS::Text("exact_amount_out"@),
        TokenS::Colon,
        amount_token(f.exact_amount_out),
        TokenS::RBrace,
        TokenS::RBrace,
    ]
}

/// The members of a canonical push params object.
spec fn push_inner_members(f: PushFields) -> Seq<(Seq<char>, LeafS)> {
    seq![
        ("subscription"@, LeafS::LText(f.subscription)),
        ("quote_id"@, LeafS::LText(f.quote_id)),
        ("defuse_asset_identifier_in"@, LeafS::LText(f.asset_in)),
        ("defuse_asset_identifier_out"@, LeafS::LText(f.asset_out)),
        ("exact_amount_in"@, amount_leaf(f.exact_amount_in)),
        ("exact_amount_out"@, amount_leaf(f.exact_amount_out)),
    ]
}

/// The members of a canonical push frame.
spec fn push_outer_members(f: PushFields) -> Seq<(Seq<char>, ValueS)> {
    seq![
        ("jsonrpc"@, ValueS::VLeaf(LeafS::LText("2.0"@))),
        ("method"@, ValueS::VLeaf(LeafS::LText("subscribe"@))),
        ("params"@, ValueS::VObj(push_inner_members(f))),
    ]
}

proof fn lemma_render_concat(a: Seq<TokenS>, b: Seq<TokenS>)
    ensures
        render_tokens(a + b) == render_tokens(a) + render_tokens(b),
    decreases a.len(),
{
    reveal_with_fuel(render_tokens, 2);
    if a.len() == 0 {
        assert(a + b =~= b);
        assert(render_tokens(a) + render_tokens(b) =~= render_tokens(b));
    } else {
        assert((a + b).skip(1) =~= a.skip(1) + b);
        lemma_render_concat(a.skip(1), b);
        assert((a + b)[0] == a[0]);
        assert(render_tokens(a + b) =~= render_tokens(a) + render_tokens(b));
    }
}

proof fn lemma_push_tokens_wf(f: PushFields)
    requires
        push_fields_plain(f),
    ensures
        tokens_wf(push_tokens(f)),
{
    reveal_strlit("jsonrpc");
    reveal_strlit("2.0");
    reveal_strlit("method");
    reveal_strlit("subscribe");
    reveal_strlit("params");
    reveal_strlit("subscription");
    reveal_strlit("quote_id");
    reveal_strlit("defuse_asset_identifier_in");
    reveal_strlit("defuse_asset_identifier_out");
    reveal_strlit("exact_amount_in");
    reveal_strlit("exact_amount_out");
    let toks = push_tokens(f);
    assert forall|k: int| 0 <= k < toks.len() implies token_wf(toks, k) by {}
}

spec fn push_text_a(f: PushFields) -> Seq<char> {
    "{\"jsonrpc\":\"2.0\",\"method\":\"subscribe\",\"params\":{\"subscription\":\""@
        + f.subscription + "\",\"quote_id\":\""@ + f.quote_id + "\""@
}

spec fn push_text_b(f: PushFields) -> Seq<char> {
    ",\"defuse_asset_identifier_in\":\""@ + f.asset_in
        + "\",\"defuse_asset_identifier_out\":\""@ + f.asset_out + "\","@
}

spec fn push_text_c(f: PushFields) -> Seq<char> {
    "\"exact_amount_in\":"@ + value_text(f.exact_amount_in) + ",\"exact_amount_out\":"@
        + value_text(f.exact_amount_out) + "}}"@
}

#[verifier::rlimit(100)]
proof fn lemma_push_render_a(f: PushFields)
    ensures
        render_tokens(push_tokens(f).subrange(0, 19)) == push_text_a(f),
{
    reveal_with_fuel(render_tokens, 21);
    reveal_strlit("{");
    reveal_strlit(":");
    reveal_strlit(",");
    reveal_strlit("\"");
    reveal_strlit("{\"jsonrpc\":\"2.0\",\"method\":\"subscribe\",\"params\":{\"subscription\":\"");
    reveal_strlit("\",\"quote_id\":\"");
    reveal_strlit("jsonrpc");
    reveal_strlit("2.0");
    reveal_strlit("method");
    reveal_strlit("subscribe");
    reveal_strlit("params");
    reveal_strlit("subscription");
    reveal_strlit("quote_id");
    assert(render_tokens(push_tokens(f).subrange(0, 19)) =~= push_text_a(f));
}

#[verifier::rlimit(100)]
proof fn lemma_push_render_b(f: PushFields)
    ensures
        render_tokens(push_tokens(f).subrange(19, 28)) == push_text_b(f),
{
    reveal_with_fuel(render_tokens, 11);
    reveal_strlit(":");
    reveal_strlit(",");
    reveal_strlit("\"");
    reveal_strlit(",\"defuse_asset_identifier_in\":\"");
    reveal_strlit("\",\"defuse_asset_identifier_out\":\"");
    reveal_strlit("\",");
    reveal_strlit("defuse_asset_identifier_in");
    reveal_strlit("defuse_asset_identifier_out");
    assert(render_tokens(push_tokens(f).subrange(19, 28)) =~= push_text_b(f));
}

#[verifier::rlimit(100)]
proof fn lemma_push_render_c(f: PushFields)
    ensures
        render_tokens(push_tokens(f).subrange(28, 37)) == push_text_c(f),
{
    reveal_with_fuel(render_tokens, 11);
    reveal_strlit(":");
    reveal_strlit(",");
    reveal_strlit("\"");
    reveal_strlit("}");
    reveal_strlit("null");
    reveal_strlit("\"exact_amount_in\":");
    reveal_strlit(",\"exact_amount_out\":");
    reveal_strlit("}}");
    reveal_strlit("exact_amount_in");
    reveal_strlit("exact_amount_out");
    assert(render_tokens(push_tokens(f).subrange(28, 37)) =~= push_text_c(f));
}

#[verifier::rlimit(100)]
proof fn lemma_push_render(f: PushFields)
    requires
        push_fields_plain(f),
    ensures
        push_text(f).subrange(0, push_text(f).len() as int) == render_tokens(push_tokens(f)),
{
    let toks = push_tokens(f);
    let part_a = toks.subrange(0, 19);
    let part_b = toks.subrange(19, 28);
    let part_c = toks.subrange(28, 37);
    lemma_push_render_a(f);
    lemma_push_render_b(f);
    lemma_push_render_c(f);
    assert(toks =~= part_a + part_b + part_c);
    lemma_render_concat(part_a + part_b, part_c);
    lemma_render_concat(part_a, part_b);
    assert(render_tokens(toks) == push_text_a(f) + push_text_b(f) + push_text_c(f));
    assert(push_text(f) =~= push_text_a(f) + push_text_b(f) + push_text_c(f)) by {
        reveal_strlit("\",\"defuse_asset_identifier_in\":\"");
        reveal_strlit(",\"defuse_asset_identifier_in\":\"");
        reveal_strlit("\",\"defuse_asset_identifier_out\":\"");
        reveal_strlit("\",\"exact_amount_in\":");
        reveal_strlit("\"exact_amount_in\":");
        reveal_strlit("\",");
        reveal_strlit("\"");
        reveal_strlit(",\"exact_amount_out\":");
        reveal_strlit("}}");
        reveal_strlit("\",\"quote_id\":\"");
    }
    assert(push_text(f).subrange(0, push_text(f).len() as int) =~= push_text(f));
}

#[verifier::rlimit(100)]
proof fn lemma_push_members(f: PushFields)
    ensures
        parse_outer_members(push_tokens(f), 1) == Some((push_outer_members(f), 37int)),
{
    let toks = push_tokens(f);
    let im = push_inner_members(f);
    let pm = push_outer_members(f);
    reveal_with_fuel(parse_flat_members, 2);
    assert(parse_flat_members(toks, 32) == Some((seq![im[5]], 36int)));
    assert(parse_flat_members(toks, 28) == Some((seq![im[4], im[5]], 36int))) by {
        assert(seq![im[4]] + seq![im[5]] =~= seq![im[4], im[5]]);
    }
    assert(parse_flat_members(toks, 24) == Some((seq![im[3], im[4], im[5]], 36int))) by {
        assert(seq![im[3]] + seq![im[4], im[5]] =~= seq![im[3], im[4], im[5]]);
    }
    assert(parse_flat_members(toks, 20) == Some((seq![im[2], im[3], im[4], im[5]], 36int))) by {
        assert(seq![im[2]] + seq![im[3], im[4], im[5]] =~= seq![im[2], im[3], im[4], im[5]]);
    }
    assert(parse_flat_members(toks, 16) == Some(
        (seq![im[1], im[2], im[3], im[4], im[5]], 36int),
    )) by {
        assert(seq![im[1]] + seq![im[2], im[3], im[4], im[5]] =~= seq![
            im[1],
            im[2],
            im[3],
            im[4],
            im[5],
        ]);
    }
    assert(parse_flat_members(toks, 12) == Some((im, 36int))) by {
        assert(seq![im[0]] + seq![im[1], im[2], im[3], im[4], im[5]] =~= im);
    }
    reveal_with_fuel(parse_outer_members, 2);
    assert(parse_outer_members(toks, 9) == Some((seq![pm[2]], 37int)));
    assert(parse_outer_members(toks, 5) == Some((seq![pm[1], pm[2]], 37int))) by {
        assert(seq![pm[1]] + seq![pm[2]] =~= seq![pm[1], pm[2]]);
    }
    assert(parse_outer_members(toks, 1) == Some((pm, 37int))) by {
        assert(seq![pm[0]] + seq![pm[1], pm[2]] =~= pm);
    }
}

#[verifier::rlimit(100)]
proof fn lemma_push_interpret(f: PushFields)
    ensures
        interpret_params(push_inner_members(f)) == Some(f),
{
    reveal_strlit("subscription");
    reveal_strlit("quote_id");
    reveal_strlit("defuse_asset_identifier_in");
    reveal_strlit("defuse_asset_identifier_out");
    reveal_strlit("exact_amount_in");
    reveal_strlit("exact_amount_out");
    let im = push_inner_members(f);
    assert("subscription"@.len() == 12 && "quote_id"@.len() == 8
        && "defuse_asset_identifier_in"@.len() == 26 && "defuse_asset_identifier_out"@.len() == 27
        && "exact_amount_in"@.len() == 15 && "exact_amount_out"@.len() == 16);
    reveal_with_fuel(find_leaf, 2);
    let im1 = im.skip(1);
    let im2 = im1.skip(1);
    let im3 = im2.skip(1);
    let im4 = im3.skip(1);
    let im5 = im4.skip(1);
    assert(im1[0] == im[1] && im2[0] == im[2] && im3[0] == im[3] && im4[0] == im[4] && im5[0]
        == im[5]);
    assert(im1 =~= im.skip(1) && im2 =~= im1.skip(1) && im3 =~= im2.skip(1) && im4 =~= im3.skip(1)
        && im5 =~= im4.skip(1));
    assert(find_leaf(im, "subscription"@) == Some(LeafS::LText(f.subscription)));
    assert(find_leaf(im, "subscription"@) == Some(LeafS::LText(f.subscription)));
    assert(find_leaf(im, "quote_id"@) == find_leaf(im1, "quote_id"@));
    assert(find_leaf(im1, "quote_id"@) == Some(LeafS::LText(f.quote_id)));
    assert(find_leaf(im, "quote_id"@) == Some(LeafS::LText(f.quote_id)));
    assert(find_leaf(im, "defuse_asset_identifier_in"@) == find_leaf(im1, "defuse_asset_identifier_in"@));
    assert(find_leaf(im1, "defuse_asset_identifier_in"@) == find_leaf(im2, "defuse_asset_identifier_in"@));
    assert(find_leaf(im2, "defuse_asset_identifier_in"@) == Some(LeafS::LText(f.asset_in)));
    assert(find_leaf(im, "defuse_asset_identifier_in"@) == Some(LeafS::LText(f.asset_in)));
    assert(find_leaf(im, "defuse_asset_identifier_out"@) == find_leaf(im1, "defuse_asset_identifier_out"@));
    assert(find_leaf(im1, "defuse_asset_identifier_out"@) == find_leaf(im2, "defuse_asset_identifier_out"@));
    assert(find_leaf(im2, "defuse_asset_identifier_out"@) == find_leaf(im3, "defuse_asset_identifier_out"@));
    assert(find_leaf(im3, "defuse_asset_identifier_out"@) == Some(LeafS::LText(f.asset_out)));
    assert(find_leaf(im, "defuse_asset_identifier_out"@) == Some(LeafS::LText(f.asset_out)));
    assert(find_leaf(im, "exact_amount_in"@) == find_leaf(im1, "exact_amount_in"@));
    assert(find_leaf(im1, "exact_amount_in"@) == find_leaf(im2, "exact_amount_in"@));
    assert(find_leaf(im2, "exact_amount_in"@) == find_leaf(im3, "exact_amount_in"@));
    assert(find_leaf(im3, "exact_amount_in"@) == find_leaf(im4, "exact_amount_in"@));
    assert(find_leaf(im4, "exact_amount_in"@) == Some(amount_leaf(f.exact_amount_in)));
    assert(find_leaf(im, "exact_amount_in"@) == Some(amount_leaf(f.exact_amount_in)));
    assert(find_leaf(im, "exact_amount_out"@) == find_leaf(im1, "exact_amount_out"@));
    assert(find_leaf(im1, "exact_amount_out"@) == find_leaf(im2, "exact_amount_out"@));
    assert(find_leaf(im2, "exact_amount_out"@) == find_leaf(im3, "exact_amount_out"@));
    assert(find_leaf(im3, "exact_amount_out"@) == find_leaf(im4, "exact_amount_out"@));
    assert(find_leaf(im4, "exact_amount_out"@) == find_leaf(im5, "exact_amount_out"@));
    assert(find_leaf(im5, "exact_amount_out"@) == Some(amount_leaf(f.exact_amount_out)));
    assert(find_leaf(im, "exact_amount_out"@) == Some(amount_leaf(f.exact_amount_out)));
}

/// Parsing inverts rendering: the canonical push frame around plain fields
/// parses back to exactly those fields.
#[verifier::rlimit(100)]
pub proof fn lemma_push_round_trip(f: PushFields)
    requires
        push_fields_plain(f),
    ensures
        spec_parse_push(push_text(f)) == Some(f),
{
    let t = push_text(f);
    let toks = push_tokens(f);
    lemma_push_tokens_wf(f);
    lemma_push_render(f);
    lemma_tokenize_render(t, 0, toks);
    lemma_push_members(f);
    lemma_push_interpret(f);
    let ms = push_outer_members(f);
    reveal_strlit("jsonrpc");
    reveal_strlit("method");
    reveal_strlit("params");
    reveal_with_fuel(find_value, 2);
    let ms1 = ms.skip(1);
    let ms2 = ms1.skip(1);
    assert(ms1[0] == ms[1] && ms2[0] == ms[2]);
    assert(ms2 =~= ms1.skip(1));
    assert("method"@[0] == 'm' && "jsonrpc"@[0] == 'j' && "params"@[0] == 'p');
    assert(find_value(ms, "jsonrpc"@) == Some(ValueS::VLeaf(LeafS::LText("2.0"@))));
    assert(find_value(ms, "method"@) == find_value(ms1, "method"@));
    assert(find_value(ms1, "method"@) == Some(ValueS::VLeaf(LeafS::LText("subscribe"@))));
    assert(find_value(ms, "params"@) == find_value(ms1, "params"@));
    assert(find_value(ms1, "params"@) == find_value(ms2, "params"@));
    assert(find_value(ms2, "params"@) == Some(ValueS::VObj(push_inner_members(f))));
}

/// What a successful tokenization says of the text: every string body it
/// carries is plain, so no escape, quote or control character ever reaches
/// a parsed field.
pub proof fn lemma_tokenize_text_plain(t: Seq<char>, i: int)
    requires
        0 <= i,
    ensures
        tokenize(t, i) matches Some(toks) ==> forall|k: int|
            0 <= k < toks.len() ==> (#[trigger] toks[k] matches TokenS::Text(s) ==> plain_text(
                s,
            )),
    decreases t.len() - i,
{
    if i > t.len() || i == t.len() {
    } else {
        if i + 1 <= t.len() {
            lemma_tokenize_text_plain(t, i + 1);
        }
        if t[i] == '"' {
            lemma_scan_quote_sound(t, i + 1);
            match scan_quote(t, i + 1) {
                Option::Some(j) => {
                    if i < j && j < t.len() {
                        lemma_tokenize_text_plain(t, j + 1);
                        let body = t.subrange(i + 1, j);
                        assert forall|k: int| 0 <= k < body.len() implies plain_char(
                            #[trigger] body[k],
                        ) by {
                            assert(body[k] == t[i + 1 + k]);
                        }
                        lemma_cons_text_plain(TokenS::Text(body), tokenize(t, j + 1));
                    }
                },
                Option::None => {},
            }
        } else if is_digit_char(t[i]) {
            let e = scan_digits(t, i);
            if i < e && e <= t.len() {
                lemma_tokenize_text_plain(t, e);
                lemma_cons_text_plain(TokenS::Number(t.subrange(i, e)), tokenize(t, e));
            }
        } else if t.len() - i >= 4 && match_at(t, i, "null"@) {
            lemma_tokenize_text_plain(t, i + 4);
            lemma_cons_text_plain(TokenS::Null, tokenize(t, i + 4));
        } else {
            lemma_cons_text_plain(TokenS::LBrace, tokenize(t, i + 1));
            lemma_cons_text_plain(TokenS::RBrace, tokenize(t, i + 1));
            lemma_cons_text_plain(TokenS::Colon, tokenize(t, i + 1));
            lemma_cons_text_plain(TokenS::Comma, tokenize(t, i + 1));
        }
    }
}

proof fn lemma_cons_text_plain(tok: TokenS, rest: Option<Seq<TokenS>>)
    requires
        tok matches TokenS::Text(s) ==> plain_text(s),
        rest matches Some(toks) ==> forall|k: int|
            0 <= k < toks.len() ==> (#[trigger] toks[k] matches TokenS::Text(s) ==> plain_text(
                s,
            )),
    ensures
        cons_token(tok, rest) matches Some(toks) ==> forall|k: int|
            0 <= k < toks.len() ==> (#[trigger] toks[k] matches TokenS::Text(s) ==> plain_text(
                s,
            )),
{
    match rest {
        Option::Some(r) => {
            let toks = seq![tok] + r;
            assert forall|k: int| 0 <= k < toks.len() implies (#[trigger] toks[k] matches
                TokenS::Text(s) ==> plain_text(s)) by {
                if k > 0 {
                    assert(toks[k] == r[k - 1]);
                }
            }
        },
        Option::None => {},
    }
}

} // verus!
