//! Buying credits through Stripe.

use hmac::Mac;
use vstd::prelude::*;
use vstd::string::*;
use vstd::utf8::encode_utf8;
use crate::clock::{fresh, is_fresh, unix_time};
use crate::credits::{
    after_steps, law_transaction_comes_to_its_end, law_transaction_is_atomic, ledger_row,
    run_transaction, Books, Progress, Transaction, TransactionView, TxKind,
};
use crate::decimal::{
    decimal_product, decimal_text, parsed_decimal, pow10, product_is_exact, Amount, Dec,
};
use crate::json::{json_string, json_string_at};
use crate::status::Status;
use crate::text::{
    chars_of, dec, find_char, first_index, has_prefix, head, hex, hex_text, lemma_hex_digits,
    opt_text, parse_dec, parse_u64, push_bytes, same_text, split, split_chars, string_of, strip_prefix, texts, trim, trim_chars,
    zero_padded,
};

verus! {

// ---------------------------------------------------------------------------
// Signatures
// ---------------------------------------------------------------------------

/// The value of the last part that starts with a prefix, with white space around each part ignored.
pub open spec fn last_field(parts: Seq<Seq<char>>, prefix: Seq<char>) -> Option<Seq<char>>
    decreases parts.len(),
{
    if parts.len() == 0 {
        None
    } else {
        let part = trim(parts.last());
        if has_prefix(part, prefix) {
            Some(part.skip(prefix.len() as int))
        } else {
            last_field(parts.drop_last(), prefix)
        }
    }
}

/// The HMAC of some bytes under a key, with SHA-256.
pub uninterp spec fn hmac_sha256(key: Seq<u8>, data: Seq<u8>) -> Seq<u8>;

/// `Hmac<Sha256>` of the crate `hmac`, made by `new_from_slice`, which takes a key of any size, fed
/// by `update` and read by `finalize`: the code of the bytes under the key, which are 32 bytes.
#[verifier::external_body]
fn hmac_code(key: &[u8], data: &[u8]) -> (r: Vec<u8>)
    ensures
        r@ == hmac_sha256(key@, data@),
        r@.len() == 32,
{
    let mut mac = hmac::Hmac::<sha2::Sha256>::new_from_slice(key).expect("any key size is valid");
    mac.update(data);
    mac.finalize().into_bytes().to_vec()
}

/// The signature that a payload has to carry.
pub open spec fn expected_signature(
    payload: Seq<u8>,
    timestamp: Seq<char>,
    secret: Seq<char>,
) -> Seq<char> {
    hex(hmac_sha256(encode_utf8(secret), encode_utf8(timestamp + "."@) + payload))
}

/// How many characters a signature has: two hexadecimal digits for each byte of the code.
pub const SIGNATURE_LEN: usize = 64;

/// The signature that a header carries.
pub open spec fn header_signature(header: Seq<char>) -> Option<Seq<char>> {
    last_field(split(header, ','), "v1="@)
}

/// What is wrong with a signature at a given time, if anything. One that is empty or cut is as wrong
/// as any other that is not the expected one.
pub open spec fn signature_fault(
    payload: Seq<u8>,
    header: Seq<char>,
    secret: Seq<char>,
    now: u64,
) -> Option<Seq<char>> {
    let parts = split(header, ',');
    match (last_field(parts, "t="@), last_field(parts, "v1="@)) {
        (None, _) => Some("missing timestamp"@),
        (Some(_), None) => Some("missing signature"@),
        (Some(t), Some(v)) => match parse_dec(t, u64::MAX as nat) {
            None => Some("invalid timestamp"@),
            Some(ts) => if !is_fresh(now, ts as u64) {
                Some("timestamp too old"@)
            } else if v.len() != SIGNATURE_LEN || v != expected_signature(payload, t, secret) {
                Some("signature mismatch"@)
            } else {
                None
            },
        },
    }
}

/// A part's value behind a prefix, with white space around the part ignored.
fn field(part: &str, prefix: &str) -> (r: Option<String>)
    ensures
        match r {
            Some(v) => has_prefix(trim(part@), prefix@) && v@ == trim(part@).skip(
                prefix@.len() as int,
            ),
            None => !has_prefix(trim(part@), prefix@),
        },
{
    let chars = chars_of(part);
    match strip_prefix(trim_chars(chars.as_slice()), prefix) {
        Some(v) => Some(string_of(v)),
        None => None,
    }
}

fn find_last_field(parts: &Vec<String>, prefix: &str) -> (r: Option<String>)
    ensures
        opt_text(r) == last_field(texts(parts@), prefix@),
{
    let ghost all = texts(parts@);
    let mut found: Option<String> = None;
    let mut i: usize = 0;
    proof {
        assert(all.take(0) =~= seq![]);
    }
    while i < parts.len()
        invariant
            i <= parts@.len(),
            all == texts(parts@),
            opt_text(found) == last_field(all.take(i as int), prefix@),
        decreases parts@.len() - i,
    {
        proof {
            assert(all.take(i as int + 1).drop_last() =~= all.take(i as int));
        }
        match field(parts[i].as_str(), prefix) {
            Some(v) => {
                found = Some(v);
            },
            None => {},
        }
        i += 1;
    }
    proof {
        assert(all.take(i as int) =~= all);
    }
    found
}

/// Compares two texts in a time that depends on their lengths alone.
fn same_bytes(a: &[u8], b: &[u8]) -> (r: bool)
    ensures
        r == (a@ == b@),
{
    if a.len() != b.len() {
        return false;
    }
    let mut diff: u8 = 0;
    let mut i: usize = 0;
    while i < a.len()
        invariant
            a@.len() == b@.len(),
            i <= a@.len(),
            diff == 0 <==> forall|j: int| 0 <= j < i ==> a@[j] == b@[j],
        decreases a@.len() - i,
    {
        let x: u8 = a[i];
        let y: u8 = b[i];
        let d: u8 = diff;
        proof {
            assert((d | (x ^ y)) == 0 <==> (d == 0 && x == y)) by (bit_vector);
        }
        diff = d | (x ^ y);
        i += 1;
    }
    proof {
        if diff == 0 {
            assert(a@ =~= b@);
        }
    }
    diff == 0
}

/// Verify a Stripe webhook signature at the given time.
///
/// The `Stripe-Signature` header contains `t=<timestamp>,v1=<signature>`.
/// We compute `HMAC-SHA256(secret, "{t}.{payload}")` and compare.
pub fn verify_stripe_signature_at(
    payload: &[u8],
    sig_header: &str,
    webhook_secret: &str,
    now: u64,
) -> (r: Result<(), &'static str>)
    ensures
        match r {
            Ok(_) => signature_fault(payload@, sig_header@, webhook_secret@, now) is None,
            Err(e) => signature_fault(payload@, sig_header@, webhook_secret@, now) == Some(e@),
        },
        r is Ok ==> (header_signature(sig_header@) matches Some(v) && v.len() == SIGNATURE_LEN),
{
    let chars = chars_of(sig_header);
    let parts = split_chars(chars.as_slice(), ',');
    let timestamp = match find_last_field(&parts, "t=") {
        Some(t) => t,
        None => {
            return Err("missing timestamp");
        },
    };
    let signature = match find_last_field(&parts, "v1=") {
        Some(v) => v,
        None => {
            return Err("missing signature");
        },
    };
    let ts: u64 = match parse_u64(timestamp.as_str()) {
        Some(n) => n,
        None => {
            return Err("invalid timestamp");
        },
    };
    if !fresh(now, ts) {
        return Err("timestamp too old");
    }
    let mut prefix = timestamp.clone();
    prefix.append(".");
    let mut signed: Vec<u8> = Vec::new();
    push_bytes(&mut signed, prefix.as_str().as_bytes());
    push_bytes(&mut signed, payload);
    proof {
        assert(signed@ =~= encode_utf8(timestamp@ + "."@) + payload@);
    }
    let code = hmac_code(webhook_secret.as_bytes(), signed.as_slice());
    let expected = hex_text(code.as_slice());
    proof {
        lemma_hex_digits(code@);
        vstd::utf8::encode_utf8_decode_utf8(expected@);
        vstd::utf8::encode_utf8_decode_utf8(signature@);
    }
    if !same_bytes(expected.as_str().as_bytes(), signature.as_str().as_bytes()) {
        return Err("signature mismatch");
    }
    Ok(())
}

/// Verify a Stripe webhook signature now: the verdict is that of the time at which the clock is
/// read.
pub fn verify_stripe_signature(payload: &[u8], sig_header: &str, webhook_secret: &str) -> (r: Result<
    (),
    &'static str,
>)
    ensures
        exists|now: u64|
            match r {
                Ok(_) => #[trigger] signature_fault(payload@, sig_header@, webhook_secret@, now) is None,
                Err(e) => signature_fault(payload@, sig_header@, webhook_secret@, now) == Some(e@),
            },
        r is Ok ==> (header_signature(sig_header@) matches Some(v) && v.len() == SIGNATURE_LEN),
{
    let now = unix_time();
    verify_stripe_signature_at(payload, sig_header, webhook_secret, now)
}

// ---------------------------------------------------------------------------
// Webhook
// ---------------------------------------------------------------------------

/// What to do with a webhook event.
#[derive(Debug)]
pub enum WebhookStep {
    Respond(Status),
    /// Find the purchase that was paid for.
    FindPurchase { session_id: String, agent_id: String, amount: Amount },
}

/// What a step says.
pub enum WebhookStepView {
    Respond(Status),
    FindPurchase { session_id: Seq<char>, agent_id: Seq<char>, amount: Dec },
}

impl View for WebhookStep {
    type V = WebhookStepView;

    open spec fn view(&self) -> WebhookStepView {
        match self {
            WebhookStep::Respond(s) => WebhookStepView::Respond(*s),
            WebhookStep::FindPurchase { session_id, agent_id, amount } => {
                WebhookStepView::FindPurchase {
                    session_id: session_id@,
                    agent_id: agent_id@,
                    amount: amount@,
                }
            },
        }
    }
}

/// What an event asks for, from the strings in it. Only a completed checkout is acted on; one whose
/// metadata cannot be used is acknowledged all the same.
pub open spec fn event_step(
    event_type: Option<Option<Seq<char>>>,
    session_id: Option<Seq<char>>,
    agent_id: Option<Seq<char>>,
    credits: Option<Seq<char>>,
) -> WebhookStepView {
    match event_type {
        None => WebhookStepView::Respond(Status::BadRequest),
        Some(t) => if t != Some("checkout.session.completed"@) {
            WebhookStepView::Respond(Status::Success)
        } else {
            match (session_id, agent_id, credits) {
                (None, _, _) => WebhookStepView::Respond(Status::BadRequest),
                (Some(session_id), Some(agent_id), Some(c)) => match parsed_decimal(c) {
                    Some(amount) => WebhookStepView::FindPurchase { session_id, agent_id, amount },
                    None => WebhookStepView::Respond(Status::Success),
                },
                _ => WebhookStepView::Respond(Status::Success),
            }
        },
    }
}

/// The step for an event whose strings are known.
pub fn webhook_event(
    event_type: Option<Option<String>>,
    session_id: Option<String>,
    agent_id: Option<String>,
    credits: Option<String>,
) -> (r: WebhookStep)
    ensures
        r@ == event_step(
            crate::json::json_view(event_type),
            opt_text(session_id),
            opt_text(agent_id),
            opt_text(credits),
        ),
{
    match event_type {
        None => {
            return WebhookStep::Respond(Status::BadRequest);
        },
        Some(None) => {
            return WebhookStep::Respond(Status::Success);
        },
        Some(Some(t)) => {
            if !same_text(t.as_str(), "checkout.session.completed") {
                return WebhookStep::Respond(Status::Success);
            }
        },
    }
    let session_id = match session_id {
        None => {
            return WebhookStep::Respond(Status::BadRequest);
        },
        Some(s) => s,
    };
    match (agent_id, credits) {
        (Some(agent_id), Some(c)) => match Amount::parse(c.as_str()) {
            Some(amount) => WebhookStep::FindPurchase { session_id, agent_id, amount },
            None => WebhookStep::Respond(Status::Success),
        },
        _ => WebhookStep::Respond(Status::Success),
    }
}

/// The string at a place of a document, or nothing where there is no document.
pub open spec fn string_in(body: Seq<u8>, place: Seq<char>) -> Option<Seq<char>> {
    match json_string(body, place) {
        Some(s) => s,
        None => None,
    }
}

/// The step for the event in a body whose signature is good.
pub open spec fn body_step(body: Seq<u8>) -> WebhookStepView {
    event_step(
        json_string(body, "/type"@),
        string_in(body, "/data/object/id"@),
        string_in(body, "/data/object/metadata/agent_id"@),
        string_in(body, "/data/object/metadata/credits"@),
    )
}

fn find_string(body: &[u8], place: &str) -> (r: Option<String>)
    ensures
        opt_text(r) == string_in(body@, place@),
{
    match json_string_at(body, place) {
        Some(s) => s,
        None => None,
    }
}

/// The answer to a webhook before its event is looked at: without a secret there is nothing to do,
/// and a body that cannot be read, or a signature that is missing or wrong, is refused.
pub open spec fn webhook_refusal(
    secret: Option<Seq<char>>,
    body: Option<Seq<u8>>,
    header: Option<Seq<char>>,
    now: u64,
) -> Option<Status> {
    match (secret, body, header) {
        (None, _, _) => Some(Status::NotImplemented),
        (Some(_), None, _) => Some(Status::BadRequest),
        (Some(_), Some(_), None) => Some(Status::Unauthorized),
        (Some(s), Some(b), Some(h)) => if signature_fault(b, h, s, now) is Some {
            Some(Status::Unauthorized)
        } else {
            None
        },
    }
}

pub open spec fn opt_bytes(b: Option<&[u8]>) -> Option<Seq<u8>> {
    match b {
        Some(s) => Some(s@),
        None => None,
    }
}

/// Receives a Stripe webhook event at the given time. Verifies the signature, then finds out what
/// the event asks for.
pub fn stripe_webhook_at(
    secret: Option<&str>,
    body: Option<&[u8]>,
    sig_header: Option<&str>,
    now: u64,
) -> (r: WebhookStep)
    ensures
        r@ == match webhook_refusal(
            crate::text::opt_str(secret),
            opt_bytes(body),
            crate::text::opt_str(sig_header),
            now,
        ) {
            Some(s) => WebhookStepView::Respond(s),
            None => body_step(body->0@),
        },
{
    let secret = match secret {
        None => {
            return WebhookStep::Respond(Status::NotImplemented);
        },
        Some(s) => s,
    };
    let body = match body {
        None => {
            return WebhookStep::Respond(Status::BadRequest);
        },
        Some(b) => b,
    };
    let header = match sig_header {
        None => {
            return WebhookStep::Respond(Status::Unauthorized);
        },
        Some(h) => h,
    };
    match verify_stripe_signature_at(body, header, secret, now) {
        Ok(_) => {},
        Err(_) => {
            return WebhookStep::Respond(Status::Unauthorized);
        },
    }
    let event_type = json_string_at(body, "/type");
    let session_id = find_string(body, "/data/object/id");
    let agent_id = find_string(body, "/data/object/metadata/agent_id");
    let credits = find_string(body, "/data/object/metadata/credits");
    webhook_event(event_type, session_id, agent_id, credits)
}

/// Receives a Stripe webhook event now: what is done is what is done at the time at which the clock
/// is read.
pub fn stripe_webhook(secret: Option<&str>, body: Option<&[u8]>, sig_header: Option<&str>) -> (r:
    WebhookStep)
    ensures
        exists|now: u64|
            r@ == match #[trigger] webhook_refusal(
                crate::text::opt_str(secret),
                opt_bytes(body),
                crate::text::opt_str(sig_header),
                now,
            ) {
                Some(s) => WebhookStepView::Respond(s),
                None => body_step(body->0@),
            },
{
    let now = unix_time();
    stripe_webhook_at(secret, body, sig_header, now)
}

/// What was found of a purchase.
#[derive(Debug)]
pub enum PurchaseLookup {
    /// The purchases could not be read.
    Failed,
    Missing,
    Found { id: String, status: String },
}

/// What to do with a purchase that was paid for.
#[derive(Debug)]
pub enum PurchaseStep {
    Respond(Status),
    /// Deposit the credits; once that has gone through the purchase is completed.
    Deposit { transaction: Transaction, purchase_id: String },
}

/// The transaction that deposits bought credits.
pub open spec fn purchase_deposit(
    agent_id: Seq<char>,
    amount: Dec,
    purchase_id: Seq<char>,
) -> TransactionView {
    TransactionView {
        from_agent_id: None,
        to_agent_id: Some(agent_id),
        amount,
        kind: TxKind::Purchase,
        reference_id: Some(purchase_id),
    }
}

/// Credits are deposited for a purchase that is not completed yet. An unknown purchase and one that
/// is completed already are acknowledged and left alone.
pub fn webhook_purchase(lookup: PurchaseLookup, agent_id: String, amount: Amount) -> (r: PurchaseStep)
    ensures
        match lookup {
            PurchaseLookup::Failed => r == PurchaseStep::Respond(Status::InternalServerError),
            PurchaseLookup::Missing => r == PurchaseStep::Respond(Status::Success),
            PurchaseLookup::Found { id, status } => if status@ == "completed"@ {
                r == PurchaseStep::Respond(Status::Success)
            } else {
                r matches PurchaseStep::Deposit { transaction, purchase_id } && transaction@
                    == purchase_deposit(agent_id@, amount@, id@) && purchase_id@ == id@
            },
        },
{
    match lookup {
        PurchaseLookup::Failed => PurchaseStep::Respond(Status::InternalServerError),
        PurchaseLookup::Missing => PurchaseStep::Respond(Status::Success),
        PurchaseLookup::Found { id, status } => {
            if same_text(status.as_str(), "completed") {
                return PurchaseStep::Respond(Status::Success);
            }
            let transaction = Transaction {
                from_agent_id: None,
                to_agent_id: Some(agent_id),
                amount,
                kind: TxKind::Purchase,
                reference_id: Some(id.clone()),
            };
            PurchaseStep::Deposit { transaction, purchase_id: id }
        },
    }
}

/// A purchase as it is stored, under its checkout session.
#[verifier::ext_equal]
pub struct PurchaseRecord {
    pub id: Seq<char>,
    pub status: Seq<char>,
}

/// The purchases, and the balances and the ledger.
#[verifier::ext_equal]
pub struct Sales {
    pub purchases: Map<Seq<char>, PurchaseRecord>,
    pub books: Books,
}

/// Whether a purchase waits for its credits.
pub open spec fn is_unpaid(w: Sales, session_id: Seq<char>) -> bool {
    w.purchases.dom().contains(session_id) && w.purchases[session_id].status != "completed"@
}

/// What a webhook for a paid checkout does: nothing for an unknown or a completed purchase; else it
/// makes the deposit, step by step, and once that is complete, completes the purchase. The row of
/// the ledger stands under `entry_id`.
pub open spec fn deliver(
    w: Sales,
    session_id: Seq<char>,
    agent_id: Seq<char>,
    amount: Dec,
    entry_id: Seq<char>,
) -> Sales {
    if !is_unpaid(w, session_id) {
        w
    } else {
        let p = w.purchases[session_id];
        let (books, progress) = after_steps(
            w.books,
            purchase_deposit(agent_id, amount, p.id),
            entry_id,
            3,
        );
        match progress {
            Progress::Complete => Sales {
                purchases: w.purchases.insert(
                    session_id,
                    PurchaseRecord { status: "completed"@, ..p },
                ),
                books,
            },
            Progress::Next(_) => Sales { books, ..w },
        }
    }
}

/// However often a webhook is delivered, the credits are deposited once: the first delivery that goes
/// through adds them to the agent's balance, adds one row to the ledger, which names the purchase,
/// and completes the purchase; any later one changes nothing. A delivery that does not go through
/// changes nothing either.
pub proof fn law_webhook_is_idempotent(
    w: Sales,
    session_id: Seq<char>,
    agent_id: Seq<char>,
    amount: Dec,
    entry_id: Seq<char>,
    later_id: Seq<char>,
)
    ensures
        ({
            let after = deliver(w, session_id, agent_id, amount, entry_id);
            let p = w.purchases[session_id];
            let deposit = purchase_deposit(agent_id, amount, p.id);
            let paid = run_transaction(w.books.balances, deposit);
            &&& is_unpaid(w, session_id) && paid is Done ==> {
                &&& after.books.balances == paid->Done_0
                &&& after.books.ledger == w.books.ledger.push(ledger_row(deposit, entry_id))
                &&& after.purchases == w.purchases.insert(
                    session_id,
                    PurchaseRecord { status: "completed"@, ..p },
                )
                &&& deliver(after, session_id, agent_id, amount, later_id) == after
            }
            &&& !(is_unpaid(w, session_id) && paid is Done) ==> after == w
        }),
{
    if is_unpaid(w, session_id) {
        let deposit = purchase_deposit(agent_id, amount, w.purchases[session_id].id);
        law_transaction_is_atomic(w.books, deposit, entry_id, 3);
        law_transaction_comes_to_its_end(w.books, deposit, entry_id, 3);
    }
}

/// A signature is good exactly where the header names a fresh time and the code of the payload for
/// that very time under the secret; with any other payload whose code differs it is not.
pub proof fn law_signature_binds_payload(
    payload: Seq<u8>,
    other: Seq<u8>,
    header: Seq<char>,
    secret: Seq<char>,
    now: u64,
)
    requires
        signature_fault(payload, header, secret, now) is None,
        last_field(split(header, ','), "t="@) matches Some(t) && expected_signature(
            other,
            t,
            secret,
        ) != expected_signature(payload, t, secret),
    ensures
        signature_fault(other, header, secret, now) == Some("signature mismatch"@),
{
}

// ---------------------------------------------------------------------------
// Checkout
// ---------------------------------------------------------------------------

#[derive(Debug)]
pub struct BuyCreditsRequest {
    pub amount: String,
}

pub struct BuyCreditsResponse {
    pub checkout_url: String,
}

/// The amount to be bought, which has to be positive.
pub fn checkout_amount(body: &BuyCreditsRequest) -> (r: Result<Amount, Status>)
    ensures
        match r {
            Ok(a) => parsed_decimal(body.amount@) == Some(a@) && a@.mantissa > 0,
            Err(e) => e == Status::BadRequest && (parsed_decimal(body.amount@) matches Some(d)
                ==> d.mantissa <= 0),
        },
{
    match Amount::parse(body.amount.as_str()) {
        None => Err(Status::BadRequest),
        Some(a) => if a.is_positive() {
            Ok(a)
        } else {
            Err(Status::BadRequest)
        },
    }
}

/// A number of dollars in cents, as the whole number before the point; nothing where it cannot be
/// held.
pub open spec fn cents_text(amount: Dec) -> Option<Seq<char>> {
    match decimal_product(amount, Dec { mantissa: 100, scale: 0 }) {
        Some(c) => Some(decimal_text(c).take(first_index(decimal_text(c), '.'))),
        None => None,
    }
}

/// Convert dollars to cents for Stripe.
pub fn cents(amount: &Amount) -> (r: Option<String>)
    ensures
        opt_text(r) == cents_text(amount@),
{
    match amount.times(&Amount::whole(100)) {
        Some(c) => {
            let chars = chars_of(c.text().as_str());
            let n = find_char(chars.as_slice(), '.');
            Some(string_of(head(chars.as_slice(), n)))
        },
        None => None,
    }
}

pub open spec fn pairs(v: Seq<(String, String)>) -> Seq<(Seq<char>, Seq<char>)> {
    v.map_values(|p: (String, String)| (p.0@, p.1@))
}

/// The form that opens a checkout session.
pub open spec fn checkout_fields(
    cents: Seq<char>,
    amount: Dec,
    base_url: Seq<char>,
    agent_name: Seq<char>,
    sponsor_id: Seq<char>,
    agent_id: Seq<char>,
) -> Seq<(Seq<char>, Seq<char>)> {
    seq![
        ("mode"@, "payment"@),
        ("line_items[0][price_data][currency]"@, "usd"@),
        ("line_items[0][price_data][unit_amount]"@, cents),
        (
            "line_items[0][price_data][product_data][name]"@,
            decimal_text(amount) + " AgentCodeRepo Credits"@,
        ),
        ("line_items[0][quantity]"@, "1"@),
        (
            "success_url"@,
            base_url + "/sponsors/agents/"@ + agent_name
                + "/buy-credits/success?session_id={CHECKOUT_SESSION_ID}"@,
        ),
        (
            "cancel_url"@,
            base_url + "/sponsors/agents/"@ + agent_name + "/buy-credits/cancel"@,
        ),
        ("metadata[agent_name]"@, agent_name),
        ("metadata[sponsor_id]"@, sponsor_id),
        ("metadata[agent_id]"@, agent_id),
        ("metadata[credits]"@, decimal_text(amount)),
    ]
}

/// The form that opens a checkout session over a number of cents for an agent, which has to be the
/// sponsor's own.
pub fn checkout_form(
    cents: &str,
    amount: &Amount,
    base_url: &str,
    agent_name: &str,
    sponsor_id: &str,
    agent_id: Option<&str>,
) -> (r: Result<Vec<(String, String)>, Status>)
    ensures
        match agent_id {
            None => r matches Err(e) && e == Status::NotFound,
            Some(id) => r matches Ok(fields) && pairs(fields@) == checkout_fields(
                cents@,
                amount@,
                base_url@,
                agent_name@,
                sponsor_id@,
                id@,
            ),
        },
{
    let agent_id = match agent_id {
        None => {
            return Err(Status::NotFound);
        },
        Some(id) => id,
    };
    let mut product = amount.text();
    product.append(" AgentCodeRepo Credits");
    let mut success = String::from_str(base_url);
    success.append("/sponsors/agents/");
    success.append(agent_name);
    success.append("/buy-credits/success?session_id={CHECKOUT_SESSION_ID}");
    let mut cancel = String::from_str(base_url);
    cancel.append("/sponsors/agents/");
    cancel.append(agent_name);
    cancel.append("/buy-credits/cancel");
    let mut v: Vec<(String, String)> = Vec::new();
    v.push((String::from_str("mode"), String::from_str("payment")));
    v.push((String::from_str("line_items[0][price_data][currency]"), String::from_str("usd")));
    v.push((String::from_str("line_items[0][price_data][unit_amount]"), String::from_str(cents)));
    v.push((String::from_str("line_items[0][price_data][product_data][name]"), product));
    v.push((String::from_str("line_items[0][quantity]"), String::from_str("1")));
    v.push((String::from_str("success_url"), success));
    v.push((String::from_str("cancel_url"), cancel));
    v.push((String::from_str("metadata[agent_name]"), String::from_str(agent_name)));
    v.push((String::from_str("metadata[sponsor_id]"), String::from_str(sponsor_id)));
    v.push((String::from_str("metadata[agent_id]"), String::from_str(agent_id)));
    v.push((String::from_str("metadata[credits]"), amount.text()));
    proof {
        assert(pairs(v@) =~= checkout_fields(
            cents@,
            amount@,
            base_url@,
            agent_name@,
            sponsor_id@,
            agent_id@,
        ));
    }
    Ok(v)
}

/// The form that opens a checkout session for an agent, which has to be the sponsor's own. What is
/// charged is the amount of credits that is bought, in cents; there is no form where so many cents
/// cannot be held.
pub fn create_checkout_session(
    amount: &Amount,
    base_url: &str,
    agent_name: &str,
    sponsor_id: &str,
    agent_id: Option<&str>,
) -> (r: Result<Option<Vec<(String, String)>>, Status>)
    ensures
        match agent_id {
            None => r matches Err(e) && e == Status::NotFound,
            Some(id) => match cents_text(amount@) {
                None => r matches Ok(form) && form is None,
                Some(c) => r matches Ok(form) && form matches Some(fields) && pairs(fields@)
                    == checkout_fields(c, amount@, base_url@, agent_name@, sponsor_id@, id@),
            },
        },
{
    if agent_id.is_none() {
        return Err(Status::NotFound);
    }
    match cents(amount) {
        None => Ok(None),
        Some(c) => match checkout_form(
            c.as_str(),
            amount,
            base_url,
            agent_name,
            sponsor_id,
            agent_id,
        ) {
            Ok(fields) => Ok(Some(fields)),
            Err(e) => Err(e),
        },
    }
}

/// The session and the address in the answer to the form. An answer without them is a fault of the
/// other side's.
pub fn checkout_session(success: bool, session_id: Option<String>, url: Option<String>) -> (r: Result<
    (String, BuyCreditsResponse),
    Status,
>)
    ensures
        match r {
            Ok(p) => success && opt_text(session_id) == Some(p.0@) && opt_text(url) == Some(
                p.1.checkout_url@,
            ),
            Err(e) => e == Status::BadGateway && (!success || session_id is None || url is None),
        },
{
    if !success {
        return Err(Status::BadGateway);
    }
    match (session_id, url) {
        (Some(id), Some(u)) => Ok((id, BuyCreditsResponse { checkout_url: u })),
        _ => Err(Status::BadGateway),
    }
}

/// The session and the address in the body of the answer to the form.
pub fn checkout_session_of(success: bool, body: &[u8]) -> (r: Result<
    (String, BuyCreditsResponse),
    Status,
>)
    ensures
        match r {
            Ok(p) => success && string_in(body@, "/id"@) == Some(p.0@) && string_in(body@, "/url"@)
                == Some(p.1.checkout_url@),
            Err(e) => e == Status::BadGateway && (!success || string_in(body@, "/id"@) is None
                || string_in(body@, "/url"@) is None),
        },
{
    checkout_session(success, find_string(body, "/id"), find_string(body, "/url"))
}

/// A purchase that waits for its payment, as it is stored.
#[derive(Debug)]
pub struct PendingPurchase {
    pub id: String,
    pub stripe_session_id: String,
    pub sponsor_id: String,
    pub agent_id: String,
    pub amount: String,
}

pub fn pending_purchase(
    id: String,
    stripe_session_id: String,
    sponsor_id: String,
    agent_id: String,
    amount: &Amount,
) -> (r: PendingPurchase)
    ensures
        r.id == id,
        r.stripe_session_id == stripe_session_id,
        r.sponsor_id == sponsor_id,
        r.agent_id == agent_id,
        r.amount@ == decimal_text(amount@),
{
    PendingPurchase { id, stripe_session_id, sponsor_id, agent_id, amount: amount.text() }
}

proof fn lemma_padded_one_more(a: Seq<char>, x: char, w: nat)
    ensures
        zero_padded(a.push(x), w + 1) == zero_padded(a, w).push(x),
    decreases w - a.len(),
{
    if a.len() < w {
        let b = seq!['0'] + a;
        lemma_padded_one_more(b, x, w);
        assert(b.push(x) =~= seq!['0'] + a.push(x));
    }
}

/// The digits before the point are those of the whole part.
proof fn lemma_whole_part(n: nat, s: nat)
    ensures
        zero_padded(dec(n), s + 1).len() > s,
        zero_padded(dec(n), s + 1).take(zero_padded(dec(n), s + 1).len() - s) == dec(n / pow10(s)),
        forall|i: int|
            0 <= i < zero_padded(dec(n), s + 1).len() ==> crate::text::is_digit(
                #[trigger] zero_padded(dec(n), s + 1)[i],
            ),
    decreases s,
{
    let d = zero_padded(dec(n), s + 1);
    if s == 0 {
        lemma_dec_is_digits(n);
        assert(d == dec(n));
        assert(d.take(d.len() as int) =~= d);
        assert(pow10(0) == 1);
        assert(n / 1 == n);
    } else {
        let x = crate::text::digit(n % 10);
        let m = n / 10;
        let t = (s - 1) as nat;
        let e = zero_padded(dec(m), s);
        lemma_whole_part(m, t);
        assert(d == e.push(x)) by {
            if n >= 10 {
                lemma_padded_one_more(dec(m), x, s);
            } else {
                lemma_padded_one_more(Seq::<char>::empty(), x, s);
                assert(Seq::<char>::empty().push(x) =~= dec(n));
                assert(zero_padded(Seq::<char>::empty(), s) == zero_padded(
                    seq!['0'] + Seq::<char>::empty(),
                    s,
                ));
                assert(seq!['0'] + Seq::<char>::empty() =~= dec(0));
            }
        }
        assert(d.take(d.len() - s) =~= e.take(e.len() - t));
        crate::decimal::lemma_pow10_positive(t);
        assert(n / 10 / pow10(t) == n / (10 * pow10(t))) by {
            vstd::arithmetic::div_mod::lemma_div_denominator(n as int, 10, pow10(t) as int);
        }
        assert forall|i: int| 0 <= i < d.len() implies crate::text::is_digit(#[trigger] d[i]) by {
            if i < e.len() {
                assert(d[i] == e[i]);
            } else {
                assert(d[i] == x);
            }
        }
    }
}

proof fn lemma_dec_is_digits(n: nat)
    ensures
        dec(n).len() > 0,
        forall|i: int| 0 <= i < dec(n).len() ==> crate::text::is_digit(#[trigger] dec(n)[i]),
    decreases n,
{
    if n >= 10 {
        lemma_dec_is_digits(n / 10);
        assert forall|i: int| 0 <= i < dec(n).len() implies crate::text::is_digit(
            #[trigger] dec(n)[i],
        ) by {
            if i < dec(n / 10).len() {
                assert(dec(n)[i] == dec(n / 10)[i]);
            }
        }
    }
}

/// An amount is charged in whole cents: as many as fit into it, and never more than it is worth.
pub proof fn law_charge_is_whole_cents(amount: Dec)
    requires
        amount.mantissa > 0,
        product_is_exact(amount, Dec { mantissa: 100, scale: 0 }),
    ensures
        cents_text(amount) == Some(dec((amount.mantissa * 100) as nat / pow10(amount.scale))),
{
    let c = Dec { mantissa: amount.mantissa * 100, scale: amount.scale };
    assert(decimal_product(amount, Dec { mantissa: 100, scale: 0 }) == Some(c));
    let n = c.mantissa as nat;
    let s = c.scale;
    let d = zero_padded(dec(n), s + 1);
    lemma_whole_part(n, s);
    let t = decimal_text(c);
    let whole = d.len() - s;
    if s == 0 {
        assert(t == d);
        crate::text::lemma_first_index(t, '.', t.len() as int);
        assert(t.take(t.len() as int) =~= d.take(whole));
    } else {
        assert(t[whole] == '.');
        assert forall|j: int| 0 <= j < whole implies t[j] != '.' by {
            assert(t[j] == d[j]);
        }
        crate::text::lemma_first_index(t, '.', whole);
        assert(t.take(whole) =~= d.take(whole));
    }
}

// ---------------------------------------------------------------------------
// Pages
// ---------------------------------------------------------------------------

/// The page after a payment.
pub fn buy_credits_success(agent_name: &str) -> (r: String)
    ensures
        r@ == "<!DOCTYPE html>\n<html><head><title>Payment Received — AgentCodeRepo</title></head><body>\n<h1>Payment Received!</h1>\n<p>Credits are being added to <strong>"@ + agent_name@ + "</strong>'s account.</p>\n<p>This usually happens within a few seconds.</p>\n<p><a href=\"/\">← Back to AgentCodeRepo</a></p>\n</body></html>"@,
{
    let mut s = String::from_str("<!DOCTYPE html>\n<html><head><title>Payment Received — AgentCodeRepo</title></head><body>\n<h1>Payment Received!</h1>\n<p>Credits are being added to <strong>");
    s.append(agent_name);
    s.append("</strong>'s account.</p>\n<p>This usually happens within a few seconds.</p>\n<p><a href=\"/\">← Back to AgentCodeRepo</a></p>\n</body></html>");
    s
}

/// The page after a payment was broken off.
pub fn buy_credits_cancel() -> (r: String)
    ensures
        r@ == "<!DOCTYPE html>\n<html><head><title>Payment Cancelled — AgentCodeRepo</title></head><body>\n<h1>Payment Cancelled</h1>\n<p>No credits were charged to your account.</p>\n<p><a href=\"/\">← Back to AgentCodeRepo</a></p>\n</body></html>"@,
{
    String::from_str("<!DOCTYPE html>\n<html><head><title>Payment Cancelled — AgentCodeRepo</title></head><body>\n<h1>Payment Cancelled</h1>\n<p>No credits were charged to your account.</p>\n<p><a href=\"/\">← Back to AgentCodeRepo</a></p>\n</body></html>")
}

/// The part of the form's page that sells credits, where they are sold.
pub open spec fn buy_section(stripe_configured: bool, agent_name: Seq<char>) -> Seq<char> {
    if stripe_configured {
        "<h2>Buy Credits</h2>\n<p>$1 = 1 credit. Credits are non-refundable.</p>\n<form id=\"buy-form\">\n  <label>Amount (USD): $<input type=\"number\" name=\"amount\" min=\"1\" step=\"1\" value=\"10\" required></label>\n  <button type=\"submit\">Buy with Stripe</button>\n</form>\n<div id=\"buy-result\"></div>\n<script>\ndocument.getElementById('buy-form').addEventListener('submit', async (e) => {\n  e.preventDefault();\n  const amount = e.target.amount.value;\n  const resp = await fetch('/api/sponsor/agents/"@ + agent_name + "/buy-credits', {\n    method: 'POST',\n    headers: {'Content-Type': 'application/json'},\n    body: JSON.stringify({ amount: amount }),\n  });\n  if (resp.ok) {\n    const data = await resp.json();\n    window.location.href = data.checkout_url;\n  } else {\n    document.getElementById('buy-result').innerHTML =\n      '<p style=\"color:red\">Error: ' + resp.status + '</p>';\n  }\n});\n</script>"@
    } else {
        "<p><em>Stripe not configured. Credit purchases are disabled.</em></p>"@
    }
}

/// The page with the agent's balance and a form to buy credits via Stripe.
pub fn buy_credits_form(agent_name: &str, sponsor_name: &str, balance: &str, stripe_configured: bool)
    -> (r: String)
    ensures
        r@ == "<!DOCTYPE html>\n<html><head><title>Credits for "@ + agent_name@ + " — AgentCodeRepo</title></head><body>\n<h1>Credits for "@ + agent_name@ + "</h1>\n<p>Logged in as <strong>"@ + sponsor_name@ + "</strong> | <a href=\"/logout\">Logout</a></p>\n<h2>Current Balance</h2>\n<p><strong>"@ + balance@ + "</strong> credits</p>\n"@ + buy_section(stripe_configured, agent_name@) + "\n<p><a href=\"/\">← Back to AgentCodeRepo</a></p>\n</body></html>"@,
{
    let section = if stripe_configured {
        let mut p = String::from_str(
            "<h2>Buy Credits</h2>\n<p>$1 = 1 credit. Credits are non-refundable.</p>\n<form id=\"buy-form\">\n  <label>Amount (USD): $<input type=\"number\" name=\"amount\" min=\"1\" step=\"1\" value=\"10\" required></label>\n  <button type=\"submit\">Buy with Stripe</button>\n</form>\n<div id=\"buy-result\"></div>\n<script>\ndocument.getElementById('buy-form').addEventListener('submit', async (e) => {\n  e.preventDefault();\n  const amount = e.target.amount.value;\n  const resp = await fetch('/api/sponsor/agents/",
        );
        p.append(agent_name);
        p.append(
            "/buy-credits', {\n    method: 'POST',\n    headers: {'Content-Type': 'application/json'},\n    body: JSON.stringify({ amount: amount }),\n  });\n  if (resp.ok) {\n    const data = await resp.json();\n    window.location.href = data.checkout_url;\n  } else {\n    document.getElementById('buy-result').innerHTML =\n      '<p style=\"color:red\">Error: ' + resp.status + '</p>';\n  }\n});\n</script>",
        );
        p
    } else {
        String::from_str("<p><em>Stripe not configured. Credit purchases are disabled.</em></p>")
    };
    let mut s = String::from_str("<!DOCTYPE html>\n<html><head><title>Credits for ");
    s.append(agent_name);
    s.append(" — AgentCodeRepo</title></head><body>\n<h1>Credits for ");
    s.append(agent_name);
    s.append("</h1>\n<p>Logged in as <strong>");
    s.append(sponsor_name);
    s.append("</strong> | <a href=\"/logout\">Logout</a></p>\n<h2>Current Balance</h2>\n<p><strong>");
    s.append(balance);
    s.append("</strong> credits</p>\n");
    s.append(section.as_str());
    s.append("\n<p><a href=\"/\">← Back to AgentCodeRepo</a></p>\n</body></html>");
    s
}

/// Of several fields of a kind the last counts, with white space around it ignored, whatever other
/// fields stand before and behind it.
pub proof fn law_last_field_counts(
    before: Seq<Seq<char>>,
    part: Seq<char>,
    after: Seq<Seq<char>>,
    prefix: Seq<char>,
    value: Seq<char>,
)
    requires
        trim(part) == prefix + value,
        forall|i: int| 0 <= i < after.len() ==> !has_prefix(trim(#[trigger] after[i]), prefix),
    ensures
        last_field(before + seq![part] + after, prefix) == Some(value),
        last_field(after, prefix) is None,
    decreases after.len(),
{
    let all = before + seq![part] + after;
    let t = prefix + value;
    assert(t.take(prefix.len() as int) =~= prefix);
    assert(t.skip(prefix.len() as int) =~= value);
    if after.len() == 0 {
        assert(all.last() == part);
    } else {
        let front = after.drop_last();
        assert(!has_prefix(trim(after[after.len() - 1]), prefix));
        assert forall|i: int| 0 <= i < front.len() implies !has_prefix(
            trim(#[trigger] front[i]),
            prefix,
        ) by {
            assert(front[i] == after[i]);
        }
        law_last_field_counts(before, part, front, prefix, value);
        assert(all.last() == after.last());
        assert(all.drop_last() =~= before + seq![part] + front);
    }
}

/// A signature is good exactly where the header names a time that is fresh, and a signature that is
/// that of the payload at that time under the secret.
pub proof fn law_good_signatures_are_accepted(
    payload: Seq<u8>,
    header: Seq<char>,
    secret: Seq<char>,
    now: u64,
    t: Seq<char>,
    v: Seq<char>,
)
    requires
        last_field(split(header, ','), "t="@) == Some(t),
        last_field(split(header, ','), "v1="@) == Some(v),
    ensures
        signature_fault(payload, header, secret, now) is None <==> parse_dec(
            t,
            u64::MAX as nat,
        ) is Some && is_fresh(now, parse_dec(t, u64::MAX as nat).unwrap() as u64) && v.len() == 64
            && v == hex(hmac_sha256(encode_utf8(secret), encode_utf8(t + "."@) + payload)),
        signature_fault(payload, header, secret, now) is None ==> forall|other: Seq<u8>|
            #[trigger] expected_signature(other, t, secret) != expected_signature(
                payload,
                t,
                secret,
            ) ==> signature_fault(other, header, secret, now) is Some,
{
}

/// Only a checkout that was completed leads to a purchase, and it leads to the one it was for, with
/// the agent and the credits that were put into it; other events are acknowledged.
pub proof fn law_completed_checkouts_lead_to_purchases(
    session_id: Seq<char>,
    agent_id: Seq<char>,
    credits: Seq<char>,
    kind: Seq<char>,
)
    ensures
        parsed_decimal(credits) matches Some(amount) ==> event_step(
            Some(Some("checkout.session.completed"@)),
            Some(session_id),
            Some(agent_id),
            Some(credits),
        ) == (WebhookStepView::FindPurchase { session_id, agent_id, amount }),
        kind != "checkout.session.completed"@ ==> event_step(
            Some(Some(kind)),
            Some(session_id),
            Some(agent_id),
            Some(credits),
        ) == WebhookStepView::Respond(Status::Success),
        event_step(None, Some(session_id), Some(agent_id), Some(credits))
            == WebhookStepView::Respond(Status::BadRequest),
        event_step(
            Some(Some("checkout.session.completed"@)),
            None,
            Some(agent_id),
            Some(credits),
        ) == WebhookStepView::Respond(Status::BadRequest),
        event_step(
            Some(Some("checkout.session.completed"@)),
            Some(session_id),
            None,
            Some(credits),
        ) == WebhookStepView::Respond(Status::Success),
        event_step(
            Some(Some("checkout.session.completed"@)),
            Some(session_id),
            Some(agent_id),
            None,
        ) == WebhookStepView::Respond(Status::Success),
{
}

/// A webhook is looked at only where there is a secret and it is signed with it.
pub proof fn law_unsigned_webhooks_are_refused(
    secret: Seq<char>,
    body: Seq<u8>,
    header: Seq<char>,
    now: u64,
)
    ensures
        webhook_refusal(None, Some(body), Some(header), now) == Some(Status::NotImplemented),
        webhook_refusal(Some(secret), None, Some(header), now) == Some(Status::BadRequest),
        webhook_refusal(Some(secret), Some(body), None, now) == Some(Status::Unauthorized),
        webhook_refusal(Some(secret), Some(body), Some(header), now) is None <==> signature_fault(
            body,
            header,
            secret,
            now,
        ) is None,
        signature_fault(body, header, secret, now) is Some ==> webhook_refusal(
            Some(secret),
            Some(body),
            Some(header),
            now,
        ) == Some(Status::Unauthorized),
{
}

/// Bought credits go to the agent they were bought for, and the ledger names the purchase.
pub proof fn law_bought_credits_go_to_the_agent(
    agent_id: Seq<char>,
    amount: Dec,
    purchase_id: Seq<char>,
    row: Seq<char>,
)
    ensures
        ({
            let entry = ledger_row(purchase_deposit(agent_id, amount, purchase_id), row);
            &&& entry.from_agent_id is None
            &&& entry.to_agent_id == Some(agent_id)
            &&& entry.amount == decimal_text(amount)
            &&& entry.kind == "purchase"@
            &&& entry.reference_id == Some(purchase_id)
        }),
{
}

/// A checkout charges the given cents in dollars, once, and carries along what the webhook needs: who
/// buys, for which agent, and how many credits.
pub proof fn law_checkout_carries_the_purchase(
    cents: Seq<char>,
    amount: Dec,
    base_url: Seq<char>,
    agent_name: Seq<char>,
    sponsor_id: Seq<char>,
    agent_id: Seq<char>,
)
    ensures
        ({
            let f = checkout_fields(cents, amount, base_url, agent_name, sponsor_id, agent_id);
            &&& f.contains(("mode"@, "payment"@))
            &&& f.contains(("line_items[0][price_data][currency]"@, "usd"@))
            &&& f.contains(("line_items[0][price_data][unit_amount]"@, cents))
            &&& f.contains(("line_items[0][quantity]"@, "1"@))
            &&& f.contains(("metadata[agent_name]"@, agent_name))
            &&& f.contains(("metadata[sponsor_id]"@, sponsor_id))
            &&& f.contains(("metadata[agent_id]"@, agent_id))
            &&& f.contains(("metadata[credits]"@, decimal_text(amount)))
            &&& f.contains(
                (
                    "line_items[0][price_data][product_data][name]"@,
                    decimal_text(amount) + " AgentCodeRepo Credits"@,
                ),
            )
            &&& f.contains(
                (
                    "success_url"@,
                    base_url + "/sponsors/agents/"@ + agent_name
                        + "/buy-credits/success?session_id={CHECKOUT_SESSION_ID}"@,
                ),
            )
            &&& f.contains(
                (
                    "cancel_url"@,
                    base_url + "/sponsors/agents/"@ + agent_name + "/buy-credits/cancel"@,
                ),
            )
            &&& f.len() == 11
        }),
{
    let f = checkout_fields(cents, amount, base_url, agent_name, sponsor_id, agent_id);
    assert(f[0] == ("mode"@, "payment"@));
    assert(f[1] == ("line_items[0][price_data][currency]"@, "usd"@));
    assert(f[2] == ("line_items[0][price_data][unit_amount]"@, cents));
    assert(f[3].0 == "line_items[0][price_data][product_data][name]"@);
    assert(f[4] == ("line_items[0][quantity]"@, "1"@));
    assert(f[5].0 == "success_url"@);
    assert(f[6].0 == "cancel_url"@);
    assert(f[7] == ("metadata[agent_name]"@, agent_name));
    assert(f[8] == ("metadata[sponsor_id]"@, sponsor_id));
    assert(f[9] == ("metadata[agent_id]"@, agent_id));
    assert(f[10] == ("metadata[credits]"@, decimal_text(amount)));
}

/// What a value says in contracts is what its fields say, each in its own place.
pub proof fn law_views_show_every_field(webhook_step: WebhookStep)
    ensures
        webhook_step@ == (match webhook_step {
            WebhookStep::Respond(s) => WebhookStepView::Respond(s),
            WebhookStep::FindPurchase { session_id, agent_id, amount } => {
                WebhookStepView::FindPurchase {
                    session_id: session_id@,
                    agent_id: agent_id@,
                    amount: amount@,
                }
            },
        }),
{
}

/// A list says in contracts what its items say, one for one and in their order.
pub proof fn law_items_are_read_one_for_one(v: Seq<(String, String)>)
    ensures
        pairs(v).len() == v.len(),
        forall|i: int| 0 <= i < v.len() ==> #[trigger] pairs(v)[i] == (v[i].0@, v[i].1@),
{
}

/// A body is read by the places where Stripe puts the kind of the event, the session, the agent and the
/// credits.
pub proof fn law_events_are_read_where_they_stand(
    body: Seq<u8>,
    session_id: Seq<char>,
    agent_id: Seq<char>,
    credits: Seq<char>,
)
    requires
        json_string(body, "/type"@) == Some(Some("checkout.session.completed"@)),
        json_string(body, "/data/object/id"@) == Some(Some(session_id)),
        json_string(body, "/data/object/metadata/agent_id"@) == Some(Some(agent_id)),
        json_string(body, "/data/object/metadata/credits"@) == Some(Some(credits)),
    ensures
        parsed_decimal(credits) matches Some(amount) ==> body_step(body) == (
        WebhookStepView::FindPurchase { session_id, agent_id, amount }),
        parsed_decimal(credits) is None ==> body_step(body) == WebhookStepView::Respond(
            Status::Success,
        ),
{
}

/// Credits are sold for the agent that the page is about, and only where they can be paid for.
pub proof fn law_credits_are_sold_for_the_agent(agent_name: Seq<char>)
    ensures
        crate::text::occurs(buy_section(true, agent_name), agent_name),
        buy_section(false, agent_name)
            == "<p><em>Stripe not configured. Credit purchases are disabled.</em></p>"@,
{
    let t = buy_section(true, agent_name);
    let start = "<h2>Buy Credits</h2>\n<p>$1 = 1 credit. Credits are non-refundable.</p>\n<form id=\"buy-form\">\n  <label>Amount (USD): $<input type=\"number\" name=\"amount\" min=\"1\" step=\"1\" value=\"10\" required></label>\n  <button type=\"submit\">Buy with Stripe</button>\n</form>\n<div id=\"buy-result\"></div>\n<script>\ndocument.getElementById('buy-form').addEventListener('submit', async (e) => {\n  e.preventDefault();\n  const amount = e.target.amount.value;\n  const resp = await fetch('/api/sponsor/agents/"@;
    let end = "/buy-credits', {\n    method: 'POST',\n    headers: {'Content-Type': 'application/json'},\n    body: JSON.stringify({ amount: amount }),\n  });\n  if (resp.ok) {\n    const data = await resp.json();\n    window.location.href = data.checkout_url;\n  } else {\n    document.getElementById('buy-result').innerHTML =\n      '<p style=\"color:red\">Error: ' + resp.status + '</p>';\n  }\n});\n</script>"@;
    crate::text::law_parts_of_a_text(start, agent_name, end, seq![]);
    assert(t =~= start + agent_name + end);
}

/// The signature of a header stands behind the last `v1=` in it.
pub proof fn law_signature_stands_behind_its_mark(
    before: Seq<char>,
    part: Seq<char>,
    value: Seq<char>,
)
    requires
        !part.contains(','),
        trim(part) == "v1="@ + value,
    ensures
        header_signature(before + seq![','] + part) == Some(value),
        header_signature(part) == Some(value),
{
    crate::text::lemma_split_joined(before, part, ',');
    crate::text::law_pieces_hold_no_separator(part, ',');
    law_last_field_counts(split(before, ','), part, seq![], "v1="@, value);
    law_last_field_counts(seq![], part, seq![], "v1="@, value);
    assert(split(before, ',') + seq![part] + seq![] =~= split(before, ',') + seq![part]);
    assert(Seq::<Seq<char>>::empty() + seq![part] + seq![] =~= seq![part]);
}

} // verus!
