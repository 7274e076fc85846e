use agentcoderepo::auth::{
    authenticate, authenticate_at, authenticate_legacy, authenticate_ssh, check_token, legacy_token,
    make_bearer_token, make_bearer_token_at, parse_token, ssh_token, ssh_verdict, AgentRow, AuthStep,
    KeyRow, ParsedToken,
};
use agentcoderepo::clock::{fresh, time_read};
use agentcoderepo::keys::{new_id, public_key};
use agentcoderepo::status::Status;
use base64::Engine;
use ssh_key::private::{Ed25519Keypair, KeypairData};

const AGENT: &str = "67e55044-10b1-426f-9247-bb680e5fe0c8";

fn header(token: &str) -> String {
    format!("Bearer {token}")
}

fn row(key: Vec<u8>) -> KeyRow {
    KeyRow { agent_name: "bot".to_string(), public_key: key, sponsor_name: "alice".to_string() }
}

fn refused(step: AuthStep) -> Status {
    match step {
        AuthStep::Refuse(s) => s,
        _ => panic!("the token is refused"),
    }
}

#[test]
fn legacy_token_authenticates() {
    let secret = [7u8; 32];
    let token = make_bearer_token_at(AGENT, &secret, 1_000_000);
    assert!(token.starts_with("67e55044-10b1-426f-9247-bb680e5fe0c8:1000000:"));
    match authenticate_at(Some(&header(&token)), 1_000_100) {
        AuthStep::FindKeys { agent_id, timestamp, signature } => {
            assert_eq!(agent_id, AGENT);
            assert_eq!(timestamp, 1_000_000);
            assert_eq!(signature.len(), 64);
            let keys = vec![row(public_key(&secret))];
            let agent =
                authenticate_legacy(agent_id.clone(), timestamp, &signature, &keys).unwrap();
            assert_eq!(agent.agent_id, AGENT);
            assert_eq!(agent.agent_name, "bot");
            assert_eq!(agent.sponsor_name, "alice");
            // Any of the agent's keys will do.
            let keys = vec![row(public_key(&[8u8; 32])), row(vec![1, 2]), row(public_key(&secret))];
            assert!(authenticate_legacy(agent_id.clone(), timestamp, &signature, &keys).is_ok());
            // Another key, another time or no key will not.
            let keys = vec![row(public_key(&[8u8; 32]))];
            assert_eq!(
                authenticate_legacy(agent_id.clone(), timestamp, &signature, &keys).err(),
                Some(Status::Unauthorized)
            );
            let keys = vec![row(public_key(&secret))];
            assert!(authenticate_legacy(agent_id.clone(), timestamp + 1, &signature, &keys).is_err());
            assert!(authenticate_legacy(agent_id, timestamp, &signature, &vec![]).is_err());
        }
        _ => panic!("the agent's keys are looked up"),
    }
}

#[test]
fn tokens_expire() {
    let token = header(&make_bearer_token_at(AGENT, &[7u8; 32], 1_000_000));
    assert!(matches!(authenticate_at(Some(&token), 1_000_300), AuthStep::FindKeys { .. }));
    assert!(matches!(authenticate_at(Some(&token), 999_700), AuthStep::FindKeys { .. }));
    assert_eq!(refused(authenticate_at(Some(&token), 1_000_301)), Status::Unauthorized);
    assert_eq!(refused(authenticate_at(Some(&token), 999_699)), Status::Unauthorized);
    let now = header(&make_bearer_token(AGENT, &[7u8; 32]));
    assert!(matches!(authenticate(Some(&now)), AuthStep::FindKeys { .. }));
}

#[test]
fn bad_tokens_are_refused() {
    for bad in ["", "Basic x", "Bearer ", "Bearer a:b:c:d", "Bearer only", "Bearer x:1000:AAAA"] {
        assert_eq!(refused(authenticate_at(Some(bad), 1000)), Status::Unauthorized, "{bad}");
    }
    assert_eq!(refused(authenticate_at(None, 1000)), Status::Unauthorized);
    assert!(parse_token(&format!("{AGENT}:soon:AAAA")).is_none());
    assert!(parse_token(&format!("{AGENT}:1000:***")).is_none());
    assert!(legacy_token(None, "1000", Some(vec![0; 64])).is_none());
    assert!(matches!(
        legacy_token(Some(AGENT.to_string()), "1000", Some(vec![0; 64])),
        Some(ParsedToken::Legacy { timestamp: 1000, .. })
    ));
    assert_eq!(refused(check_token(None, 1000)), Status::Unauthorized);
}

#[test]
fn uuid_is_read_in_any_form() {
    let upper = AGENT.to_uppercase();
    let signature = base64::engine::general_purpose::STANDARD.encode([0u8; 64]);
    match parse_token(&format!("{upper}:1000:{signature}")) {
        Some(ParsedToken::Legacy { agent_id, .. }) => assert_eq!(agent_id, AGENT),
        _ => panic!("a token of three parts"),
    }
    let id = new_id();
    assert_eq!(id.len(), 36);
    assert_ne!(id, new_id());
}

fn ssh_pem(namespace: &str, message: &str) -> (String, Vec<u8>) {
    let pair = Ed25519Keypair::from_seed(&[9u8; 32]);
    let public = pair.public.0.to_vec();
    let key = ssh_key::PrivateKey::new(KeypairData::Ed25519(pair), "").unwrap();
    let sig = key.sign(namespace, ssh_key::HashAlg::Sha512, message.as_bytes()).unwrap();
    (sig.to_pem(ssh_key::LineEnding::LF).unwrap(), public)
}

fn agent_row(id: &str) -> Option<AgentRow> {
    Some(AgentRow {
        id: id.to_string(),
        name: "bot".to_string(),
        sponsor_name: "alice".to_string(),
    })
}

#[test]
fn ssh_token_authenticates() {
    let (pem, public) = ssh_pem("agentcoderepo", "1000");
    let token = format!("1000:{}", base64::engine::general_purpose::STANDARD.encode(&pem));
    match authenticate_at(Some(&header(&token)), 1200) {
        AuthStep::FindByKey { key, timestamp, pem } => {
            assert_eq!(key, public);
            assert_eq!(timestamp, 1000);
            let agent = authenticate_ssh(agent_row(AGENT), timestamp, &pem).unwrap();
            assert_eq!(agent.agent_id, AGENT);
            assert_eq!(
                authenticate_ssh(agent_row(AGENT), 1001, &pem).err(),
                Some(Status::Unauthorized)
            );
            assert_eq!(authenticate_ssh(None, timestamp, &pem).err(), Some(Status::Unauthorized));
            assert_eq!(
                authenticate_ssh(agent_row("no uuid"), timestamp, &pem).err(),
                Some(Status::InternalServerError)
            );
        }
        _ => panic!("the agent is looked up by key"),
    }
    assert!(matches!(authenticate_at(Some(&header(&token)), 1301), AuthStep::Refuse(_)));
}

#[test]
fn ssh_signature_is_bound_to_the_namespace() {
    let (pem, _) = ssh_pem("somethingelse", "1000");
    assert_eq!(
        authenticate_ssh(agent_row(AGENT), 1000, &pem).err(),
        Some(Status::Unauthorized)
    );
    assert!(ssh_token("1000", Some(b"not a signature".to_vec()), None).is_none());
    assert_eq!(
        ssh_verdict(agent_row(AGENT), Some(AGENT.to_string()), false).err(),
        Some(Status::Unauthorized)
    );
    assert!(ssh_verdict(agent_row(AGENT), Some(AGENT.to_string()), true).is_ok());
}

#[test]
fn clock_before_the_epoch_stands_at_it() {
    assert_eq!(time_read(Some(1_700_000_000)), 1_700_000_000);
    assert_eq!(time_read(None), 0);
    assert!(fresh(time_read(None), 300));
    assert!(!fresh(time_read(None), 301));
}
