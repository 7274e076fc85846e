use agentcoderepo::credits::TxKind;
use agentcoderepo::decimal::Amount;
use agentcoderepo::status::Status;
use agentcoderepo::stripe::{
    buy_credits_cancel, buy_credits_form, buy_credits_success, cents, checkout_amount,
    checkout_form, checkout_session_of, create_checkout_session, pending_purchase, stripe_webhook,
    stripe_webhook_at, verify_stripe_signature, verify_stripe_signature_at, webhook_event,
    webhook_purchase, BuyCreditsRequest, PurchaseLookup, PurchaseStep, WebhookStep,
};
use hmac::{Hmac, Mac};
use sha2::Sha256;

const TEST_WEBHOOK_SECRET: &str = "whsec_test_secret_for_testing";

type HmacSha256 = Hmac<Sha256>;

/// Compute a valid Stripe webhook signature for testing.
fn sign_webhook(payload: &[u8], secret: &str, timestamp: u64) -> String {
    let signed_payload = format!("{timestamp}.");
    let mut mac = HmacSha256::new_from_slice(secret.as_bytes()).unwrap();
    mac.update(signed_payload.as_bytes());
    mac.update(payload);
    let sig: String = mac
        .finalize()
        .into_bytes()
        .iter()
        .map(|b| format!("{b:02x}"))
        .collect();

    format!("t={timestamp},v1={sig}")
}

fn now_timestamp() -> u64 {
    std::time::SystemTime::now()
        .duration_since(std::time::UNIX_EPOCH)
        .unwrap()
        .as_secs()
}

#[test]
fn verify_valid_signature() {
    let payload = b"test payload";
    let ts = now_timestamp();
    let sig = sign_webhook(payload, TEST_WEBHOOK_SECRET, ts);

    let result = verify_stripe_signature(payload, &sig, TEST_WEBHOOK_SECRET);
    assert!(result.is_ok());
}

#[test]
fn reject_invalid_signature() {
    let payload = b"test payload";
    let ts = now_timestamp();
    let sig = format!("t={ts},v1=0000000000000000000000000000000000000000000000000000000000000000");

    let result = verify_stripe_signature(payload, &sig, TEST_WEBHOOK_SECRET);
    assert!(result.is_err());
    assert_eq!(result.unwrap_err(), "signature mismatch");
}

#[test]
fn reject_tampered_body() {
    let payload = b"original payload";
    let ts = now_timestamp();
    let sig = sign_webhook(payload, TEST_WEBHOOK_SECRET, ts);

    // Verify with different payload → should fail
    let result = verify_stripe_signature(b"tampered payload", &sig, TEST_WEBHOOK_SECRET);
    assert!(result.is_err());
}

#[test]
fn reject_stale_timestamp() {
    let payload = b"test payload";
    let stale_ts = now_timestamp() - 600; // 10 minutes ago
    let sig = sign_webhook(payload, TEST_WEBHOOK_SECRET, stale_ts);

    let result = verify_stripe_signature(payload, &sig, TEST_WEBHOOK_SECRET);
    assert!(result.is_err());
    assert_eq!(result.unwrap_err(), "timestamp too old");
}

#[test]
fn reject_missing_signature_parts() {
    let result = verify_stripe_signature(b"payload", "t=123", TEST_WEBHOOK_SECRET);
    assert!(result.is_err());

    let result = verify_stripe_signature(b"payload", "v1=abc", TEST_WEBHOOK_SECRET);
    assert!(result.is_err());
}

#[test]
fn signature_faults_are_told_apart() {
    let at = |header: &str| verify_stripe_signature_at(b"p", header, TEST_WEBHOOK_SECRET, 1000);
    assert_eq!(at("v1=abc"), Err("missing timestamp"));
    assert_eq!(at("t=1000"), Err("missing signature"));
    assert_eq!(at("t=soon,v1=abc"), Err("invalid timestamp"));
    assert_eq!(at("t=699,v1=abc"), Err("timestamp too old"));
    assert_eq!(at("t=1301,v1=abc"), Err("timestamp too old"));
    assert_eq!(at("t=700,v1=abc"), Err("signature mismatch"));
    let sig = sign_webhook(b"p", TEST_WEBHOOK_SECRET, 700);
    assert_eq!(at(&sig), Ok(()));
    // The last field of a kind counts.
    assert_eq!(at(&format!("t=1,{sig},v0=x")), Ok(()));
    assert_eq!(at(&format!("{sig},v1=x")), Err("signature mismatch"));
    // An empty signature and one that is cut are refused.
    assert_eq!(at("t=700,v1="), Err("signature mismatch"));
    assert_eq!(at(&sig[..sig.len() - 1]), Err("signature mismatch"));
    assert_eq!(at(&format!("{sig}0")), Err("signature mismatch"));
}

fn completed(metadata: &str) -> Vec<u8> {
    format!(
        "{{\"type\":\"checkout.session.completed\",\"data\":{{\"object\":{{\"id\":\"cs_1\",\"metadata\":{metadata}}}}}}}"
    )
    .into_bytes()
}

fn deliver(body: &[u8]) -> WebhookStep {
    let sig = sign_webhook(body, TEST_WEBHOOK_SECRET, 5000);
    stripe_webhook_at(Some(TEST_WEBHOOK_SECRET), Some(body), Some(&sig), 5000)
}

#[test]
fn webhook_finds_the_purchase() {
    let body = completed("{\"agent_id\":\"agent-1\",\"credits\":\"12.50\"}");
    match deliver(&body) {
        WebhookStep::FindPurchase { session_id, agent_id, amount } => {
            assert_eq!(session_id, "cs_1");
            assert_eq!(agent_id, "agent-1");
            assert_eq!(amount.text(), "12.50");
        }
        WebhookStep::Respond(s) => panic!("answered {}", s.code()),
    }
}

#[test]
fn webhook_answers_what_it_does_not_handle() {
    let status = |step: WebhookStep| match step {
        WebhookStep::Respond(s) => s,
        _ => panic!("a purchase is looked for"),
    };
    // Another kind of event, and metadata that is missing or no amount, are acknowledged.
    assert_eq!(status(deliver(b"{\"type\":\"charge.refunded\"}")), Status::Success);
    assert_eq!(status(deliver(&completed("{}"))), Status::Success);
    assert_eq!(
        status(deliver(&completed("{\"agent_id\":\"a\",\"credits\":\"many\"}"))),
        Status::Success
    );
    // What is no document, or names no session, is refused.
    assert_eq!(status(deliver(b"not json")), Status::BadRequest);
    assert_eq!(
        status(deliver(b"{\"type\":\"checkout.session.completed\"}")),
        Status::BadRequest
    );
    // So is a request without a signature, or with one that does not fit.
    let body = completed("{}");
    assert_eq!(
        status(stripe_webhook(Some(TEST_WEBHOOK_SECRET), Some(&body), None)),
        Status::Unauthorized
    );
    assert_eq!(
        status(stripe_webhook(Some(TEST_WEBHOOK_SECRET), Some(&body), Some("t=1,v1=0"))),
        Status::Unauthorized
    );
    assert_eq!(status(stripe_webhook(None, Some(&body), Some("t=1,v1=0"))), Status::NotImplemented);
    assert_eq!(status(stripe_webhook(Some("s"), None, Some("t=1,v1=0"))), Status::BadRequest);
    assert_eq!(
        status(webhook_event(Some(Some("invoice.paid".to_string())), None, None, None)),
        Status::Success
    );
}

#[test]
fn purchase_is_credited_once() {
    let amount = || Amount::parse("10").unwrap();
    let found = |status: &str| PurchaseLookup::Found {
        id: "p1".to_string(),
        status: status.to_string(),
    };
    match webhook_purchase(found("pending"), "agent-1".to_string(), amount()) {
        PurchaseStep::Deposit { transaction, purchase_id } => {
            assert_eq!(purchase_id, "p1");
            assert_eq!(transaction.from_agent_id, None);
            assert_eq!(transaction.to_agent_id.as_deref(), Some("agent-1"));
            assert_eq!(transaction.reference_id.as_deref(), Some("p1"));
            assert_eq!(transaction.kind, TxKind::Purchase);
            assert_eq!(transaction.amount.text(), "10");
        }
        PurchaseStep::Respond(s) => panic!("answered {}", s.code()),
    }
    for (lookup, status) in [
        (found("completed"), Status::Success),
        (PurchaseLookup::Missing, Status::Success),
        (PurchaseLookup::Failed, Status::InternalServerError),
    ] {
        match webhook_purchase(lookup, "agent-1".to_string(), amount()) {
            PurchaseStep::Respond(s) => assert_eq!(s, status),
            _ => panic!("nothing is to be deposited"),
        }
    }
}

#[test]
fn checkout_charges_cents() {
    let request = |s: &str| BuyCreditsRequest { amount: s.to_string() };
    for bad in ["", "ten", "0", "-5", "0.00"] {
        assert_eq!(checkout_amount(&request(bad)).err(), Some(Status::BadRequest), "{bad}");
    }
    let amount = checkout_amount(&request("12.50")).unwrap();
    let c = cents(&amount).unwrap();
    assert_eq!(c, "1250");
    assert_eq!(cents(&Amount::parse("10").unwrap()).unwrap(), "1000");
    let fields =
        create_checkout_session(&amount, "https://x", "bot", "s1", Some("a1")).unwrap().unwrap();
    assert_eq!(
        checkout_form(&c, &amount, "https://x", "bot", "s1", Some("a1")).unwrap(),
        fields
    );
    let value = |k: &str| {
        fields.iter().find(|f| f.0 == k).map(|f| f.1.clone()).unwrap_or_default()
    };
    assert_eq!(value("line_items[0][price_data][unit_amount]"), "1250");
    assert_eq!(value("metadata[agent_id]"), "a1");
    assert_eq!(value("metadata[sponsor_id]"), "s1");
    assert_eq!(value("metadata[credits]"), "12.50");
    assert_eq!(value("mode"), "payment");
    assert_eq!(
        create_checkout_session(&amount, "https://x", "bot", "s1", None).err(),
        Some(Status::NotFound)
    );
    assert_eq!(
        checkout_form(&c, &amount, "https://x", "bot", "s1", None).err(),
        Some(Status::NotFound)
    );
    let most = Amount::parse("79228162514264337593543950335").unwrap();
    assert_eq!(create_checkout_session(&most, "https://x", "bot", "s1", Some("a1")), Ok(None));
}

#[test]
fn checkout_reply_is_read() {
    let (id, response) =
        checkout_session_of(true, b"{\"id\":\"cs_9\",\"url\":\"https://pay\"}").unwrap();
    assert_eq!(id, "cs_9");
    assert_eq!(response.checkout_url, "https://pay");
    assert_eq!(checkout_session_of(false, b"{}").err(), Some(Status::BadGateway));
    assert_eq!(checkout_session_of(true, b"{\"id\":\"cs_9\"}").err(), Some(Status::BadGateway));
    assert_eq!(checkout_session_of(true, b"oops").err(), Some(Status::BadGateway));
    let p = pending_purchase(
        "p1".to_string(),
        id,
        "s1".to_string(),
        "a1".to_string(),
        &Amount::parse("5.0").unwrap(),
    );
    assert_eq!(p.stripe_session_id, "cs_9");
    assert_eq!(p.amount, "5.0");
}

#[test]
fn credit_pages_name_the_agent() {
    assert!(buy_credits_success("bot").contains("<strong>bot</strong>"));
    assert!(buy_credits_cancel().contains("Payment Cancelled"));
    let page = buy_credits_form("bot", "alice", "7.5", true);
    assert!(page.contains("7.5") && page.contains("/api/sponsor/agents/bot/buy-credits"));
    assert!(buy_credits_form("bot", "alice", "7.5", false).contains("Stripe not configured"));
}
