use x402_gate::interceptor::{GateError, ProofInput, X402Interceptor};
use x402_gate::payment::{LedgerLookup, LedgerTransaction, PaymentError, PaymentProof, PaymentVerifier, TokenBalance};
use x402_gate::quota::{determine_tier, QuotaManager, QuotaTier, MICROS_PER_UNIT};
use x402_gate::rfc9421::{Ed25519Keypair, RFC9421Signature, SignatureAlgorithm, SignatureComponents, SignatureParams};
use x402_gate::tap::{IdentityCache, IdentityFetch, TAPIdentity, TapError};
use x402_gate::tap_client::{AgentIdentity, TAPClient, TAPConfig};
use x402_gate::types::DiscoveryConfig;

const RECIPIENT: &str = "Recipient111";

#[test]
fn tier_thresholds_are_inclusive_at_the_lower_edge() {
    assert_eq!(determine_tier(50_000), QuotaTier::Free);
    assert_eq!(determine_tier(99_999), QuotaTier::Free);
    assert_eq!(determine_tier(100_000), QuotaTier::Developer);
    assert_eq!(determine_tier(999_999), QuotaTier::Developer);
    assert_eq!(determine_tier(1_000_000), QuotaTier::Professional);
    assert_eq!(determine_tier(9_999_999), QuotaTier::Professional);
    assert_eq!(determine_tier(10_000_000), QuotaTier::Enterprise);
    assert_eq!(determine_tier(0), QuotaTier::Free);
}

#[test]
fn tier_limits() {
    assert_eq!(QuotaTier::Free.max_filters(), 1);
    assert_eq!(QuotaTier::Developer.max_filters(), 5);
    assert_eq!(QuotaTier::Professional.max_filters(), 20);
    assert_eq!(QuotaTier::Enterprise.max_filters(), 100);
    assert_eq!(QuotaTier::Free.max_accounts_per_filter(), 10);
    assert_eq!(QuotaTier::Enterprise.max_accounts_per_filter(), 10000);
    assert_eq!(QuotaTier::Developer.max_transactions_per_filter(), 100);
    assert_eq!(QuotaTier::Professional.max_transactions_per_filter(), 1000);
    assert_eq!(QuotaTier::Developer.bytes_per_cash(), 1_000_000);
}

#[test]
fn initialize_consume_and_check() {
    let mut q = QuotaManager::new();
    q.initialize_quota("c", QuotaTier::Developer, MICROS_PER_UNIT, 10);
    assert_eq!(q.get_remaining("c"), 1_000_000);
    q.consume_quota("c", 600_000, 11);
    assert_eq!(q.get_remaining("c"), 400_000);
    assert!(!q.has_quota("c", 500_000));
    assert!(q.has_quota("c", 400_000));
    let u = q.get_usage("c").unwrap();
    assert_eq!(u.used_bytes, 600_000);
    assert_eq!(u.total_bytes, 1_000_000);
    assert_eq!(u.started_at, 10);
    assert_eq!(u.last_update, 11);
}

#[test]
fn fractional_deposit_is_floored() {
    let mut q = QuotaManager::new();
    q.initialize_quota("c", QuotaTier::Free, 50_000, 0);
    assert_eq!(q.get_remaining("c"), 50_000);
    q.initialize_quota("c", QuotaTier::Free, 1, 0);
    assert_eq!(q.get_usage("c").unwrap().total_bytes, 1);
}

#[test]
fn consume_saturates_at_zero() {
    let mut q = QuotaManager::new();
    q.initialize_quota("c", QuotaTier::Developer, 100_000, 0);
    q.consume_quota("c", 150_000, 1);
    let u = q.get_usage("c").unwrap();
    assert_eq!(u.remaining_bytes, 0);
    assert_eq!(u.used_bytes, 150_000);
}

#[test]
fn consume_without_record_does_nothing() {
    let mut q = QuotaManager::new();
    q.consume_quota("nobody", 5, 0);
    assert!(q.get_usage("nobody").is_none());
    assert_eq!(q.get_remaining("nobody"), 0);
    assert!(!q.has_quota("nobody", 0));
}

#[test]
fn refund_after_partial_consumption() {
    let mut q = QuotaManager::new();
    q.initialize_quota("c", QuotaTier::Developer, MICROS_PER_UNIT, 0);
    q.consume_quota("c", 600_000, 1);
    // 400_000 bytes left at 1_000_000 bytes per unit: 0.4 units.
    assert_eq!(q.refund("c"), 400_000);
    assert!(!q.has_quota("c", 1));
    assert!(q.get_usage("c").is_none());
    assert_eq!(q.refund("c"), 0);
}

#[test]
fn top_up_adds_to_total_and_remaining() {
    let mut q = QuotaManager::new();
    q.initialize_quota("c", QuotaTier::Professional, 2 * MICROS_PER_UNIT, 0);
    q.consume_quota("c", 500_000, 1);
    q.top_up("c", 250_000, 2);
    let u = q.get_usage("c").unwrap();
    assert_eq!(u.total_bytes, 2_250_000);
    assert_eq!(u.remaining_bytes, 1_750_000);
    assert_eq!(u.deposit_amount, 2_250_000);
    q.top_up("other", 1, 3);
    assert!(q.get_usage("other").is_none());
}

#[test]
fn filter_limits_follow_tier() {
    let mut q = QuotaManager::new();
    q.initialize_quota("c", QuotaTier::Developer, 100_000, 0);
    assert!(q.check_filter_limits("c", 5));
    assert!(!q.check_filter_limits("c", 6));
    assert!(!q.check_filter_limits("none", 0));
}

#[test]
fn checked_consumption_never_overcommits() {
    let mut q = QuotaManager::new();
    q.initialize_quota("c", QuotaTier::Developer, 100_000, 0);
    let mut accepted = 0usize;
    for i in 0..10 {
        if q.check_and_consume("c", 30_000, i).is_ok() {
            accepted += 1;
        }
        let u = q.get_usage("c").unwrap();
        assert!(u.used_bytes <= u.total_bytes);
        assert_eq!(u.used_bytes + u.remaining_bytes, u.total_bytes);
    }
    assert_eq!(accepted, 3);
    assert_eq!(q.check_and_consume("c", 10_001, 11), Err(10_000));
    assert_eq!(q.check_and_consume("c", 10_000, 12), Ok(()));
    assert_eq!(q.check_and_consume("none", 1, 13), Err(0));
}

fn balance(account_index: u64, owner: &str, amount: u64) -> TokenBalance {
    TokenBalance { account_index, owner: Some(owner.to_string()), amount }
}

fn claim(amount: u64) -> PaymentProof {
    PaymentProof {
        signature: "5xTx".to_string(),
        amount,
        sender: "Payer".to_string(),
        recipient: "Claimed222".to_string(),
        mint: None,
        timestamp: 0,
        request_id: "req-1".to_string(),
    }
}

fn paying_tx(pre: u64, post: u64) -> LedgerTransaction {
    LedgerTransaction {
        succeeded: true,
        pre_token_balances: vec![balance(0, "Payer", 9_000_000), balance(1, RECIPIENT, pre)],
        post_token_balances: vec![balance(0, "Payer", 9_000_000 - (post - pre)), balance(1, RECIPIENT, post)],
    }
}

#[test]
fn payment_is_confirmed_at_exact_amount() {
    let v = PaymentVerifier::new("rpc".to_string(), RECIPIENT.to_string());
    let tx = LedgerLookup::Found(paying_tx(1_000, 51_000));
    assert_eq!(v.verify_payment(&claim(50_000), &tx), Ok(true));
    assert_eq!(v.verify_payment(&claim(50_001), &tx), Ok(false));
}

#[test]
fn payment_failures() {
    let v = PaymentVerifier::new("rpc".to_string(), RECIPIENT.to_string());
    assert_eq!(v.verify_payment(&claim(1), &LedgerLookup::Missing), Ok(false));
    assert_eq!(v.verify_payment(&claim(1), &LedgerLookup::Unreachable), Err(PaymentError::Unavailable));
    let mut failed = paying_tx(0, 100);
    failed.succeeded = false;
    assert_eq!(v.verify_payment(&claim(1), &LedgerLookup::Found(failed)), Ok(false));
    let other = LedgerTransaction {
        succeeded: true,
        pre_token_balances: vec![],
        post_token_balances: vec![balance(0, "Someone", 100)],
    };
    assert_eq!(v.verify_payment(&claim(1), &LedgerLookup::Found(other)), Ok(false));
}

#[test]
fn claimed_recipient_and_new_accounts_count() {
    let v = PaymentVerifier::new("rpc".to_string(), RECIPIENT.to_string());
    let tx = LedgerTransaction {
        succeeded: true,
        pre_token_balances: vec![balance(0, "Payer", 500)],
        post_token_balances: vec![balance(0, "Payer", 200), balance(3, "Claimed222", 300)],
    };
    assert_eq!(v.verify_payment(&claim(300), &LedgerLookup::Found(tx)), Ok(true));
}

fn gate() -> X402Interceptor {
    X402Interceptor::new("https://registry.example".to_string(), "https://rpc.example".to_string(), RECIPIENT.to_string())
}

fn components() -> SignatureComponents {
    SignatureComponents { authority: "grpc.example.com".to_string(), path: "/Subscribe".to_string() }
}

fn signed_header(kp: &Ed25519Keypair) -> String {
    let params = SignatureParams {
        created: 100,
        expires: 400,
        key_id: "agent-9".to_string(),
        alg: SignatureAlgorithm::Ed25519,
        nonce: "n".to_string(),
        tag: "agent-payer-auth".to_string(),
    };
    let sig = RFC9421Signature::sign_ed25519(&components(), &params, kp).signature;
    format!("keyid=agent-9, algorithm=ed25519, signature=\"{}\", headers=\"@authority @path\", created=100, expires=400, nonce=n, tag=agent-payer-auth", sig)
}

fn identity(kp: &Ed25519Keypair) -> TAPIdentity {
    TAPIdentity {
        key_id: "agent-9".to_string(),
        algorithm: "ed25519".to_string(),
        public_key: base64::encode(kp.public),
        domain: "d".to_string(),
    }
}

#[test]
fn small_deposit_admits_free_tier_with_one_filter() {
    let g = gate();
    let kp = Ed25519Keypair::from_secret([9u8; 32]);
    let mut cache = IdentityCache::new();
    let mut quotas = QuotaManager::new();
    let sig = g.authenticate(Some(&signed_header(&kp)), 200).unwrap();
    let id = g.confirm_identity(&mut cache, &sig, IdentityFetch::Found(identity(&kp)), &components()).unwrap();
    let p = X402Interceptor::read_payment_proof(ProofInput::Parsed(claim(50_000))).unwrap();
    let tx = LedgerLookup::Found(paying_tx(0, 50_000));
    let client = g.grant_admission(&mut quotas, &id, &p, &tx, 200).unwrap();
    assert_eq!(client, "agent-9");
    let u = quotas.get_usage("agent-9").unwrap();
    assert_eq!(u.tier, QuotaTier::Free);
    assert_eq!(u.tier.max_filters(), 1);
    assert!(!quotas.check_filter_limits("agent-9", 2));
    assert!(quotas.check_filter_limits("agent-9", 1));
}

#[test]
fn gate_rejections() {
    let g = gate();
    let kp = Ed25519Keypair::from_secret([9u8; 32]);
    assert_eq!(g.authenticate(None, 0).unwrap_err(), GateError::MissingSignature);
    assert_eq!(g.authenticate(Some(&signed_header(&kp)), 401).unwrap_err(), GateError::SignatureExpired);
    assert!(matches!(g.authenticate(Some("nonsense"), 0), Err(GateError::Unauthenticated(TapError::Header(_)))));
    let sig = g.authenticate(Some(&signed_header(&kp)), 200).unwrap();
    let mut cache = IdentityCache::new();
    assert_eq!(
        g.confirm_identity(&mut cache, &sig, IdentityFetch::Unreachable, &components()).unwrap_err(),
        GateError::Unavailable
    );
    assert_eq!(
        g.confirm_identity(&mut cache, &sig, IdentityFetch::Failed, &components()).unwrap_err(),
        GateError::Unauthenticated(TapError::IdentityNotFound)
    );
    let other = Ed25519Keypair::from_secret([1u8; 32]);
    assert_eq!(
        g.confirm_identity(&mut cache, &sig, IdentityFetch::Found(identity(&other)), &components()).unwrap_err(),
        GateError::Unauthenticated(TapError::InvalidSignature)
    );
    assert_eq!(X402Interceptor::read_payment_proof(ProofInput::Missing).unwrap_err(), GateError::PaymentRequired);
    assert_eq!(X402Interceptor::read_payment_proof(ProofInput::Malformed).unwrap_err(), GateError::InvalidPaymentProof);
    let mut quotas = QuotaManager::new();
    let id = identity(&kp);
    assert_eq!(
        g.grant_admission(&mut quotas, &id, &claim(10), &LedgerLookup::Missing, 0).unwrap_err(),
        GateError::PaymentRejected
    );
    assert_eq!(
        g.grant_admission(&mut quotas, &id, &claim(10), &LedgerLookup::Unreachable, 0).unwrap_err(),
        GateError::Unavailable
    );
    assert!(quotas.get_usage("agent-9").is_none());
}

#[test]
fn per_message_quota_check() {
    let g = gate();
    let kp = Ed25519Keypair::from_secret([9u8; 32]);
    let mut quotas = QuotaManager::new();
    let id = identity(&kp);
    let tx = LedgerLookup::Found(paying_tx(0, 100_000));
    let client = g.grant_admission(&mut quotas, &id, &claim(100_000), &tx, 0).unwrap();
    assert_eq!(quotas.get_usage(&client).unwrap().tier, QuotaTier::Developer);
    assert_eq!(g.check_quota(&mut quotas, &client, 60_000, 1), Ok(()));
    assert_eq!(g.check_quota(&mut quotas, &client, 60_000, 2), Err(GateError::ResourceExhausted(40_000)));
    assert_eq!(g.check_quota(&mut quotas, &client, 40_000, 3), Ok(()));
    assert_eq!(g.check_quota(&mut quotas, "stranger", 1, 4), Err(GateError::ResourceExhausted(0)));
}

fn client(with_identity: bool) -> TAPClient {
    let config = TAPConfig {
        key_id: "agent-9".to_string(),
        keypair: Ed25519Keypair::from_secret([9u8; 32]),
        algorithm: SignatureAlgorithm::Ed25519,
        registry_url: None,
        did: None,
        visa_tap_cert: None,
    };
    let identity = if with_identity {
        Some(AgentIdentity {
            did: "did:x402:agent-9".to_string(),
            visa_tap_cert: "cert".to_string(),
            wallet_address: "Wallet".to_string(),
            reputation_score: None,
        })
    } else {
        None
    };
    TAPClient::new(config, identity)
}

#[test]
fn signer_builds_headers_that_verify() {
    let c = client(true);
    let headers = c.sign_request_at("https://grpc.example.com/Subscribe?stream=1", "GET", 1000, "nn".to_string()).unwrap();
    let names: Vec<&str> = headers.iter().map(|h| h.0.as_str()).collect();
    assert_eq!(names, vec!["Signature-Input", "Signature", "X-Agent-DID", "X-Agent-Cert", "X-Agent-Wallet"]);
    assert_eq!(
        headers[0].1,
        "sig2=(\"@authority\" \"@path\"); created=1000; expires=1300; keyid=\"agent-9\"; alg=\"ed25519\"; nonce=\"nn\"; tag=\"agent-payer-auth\""
    );
    assert_eq!(headers[2].1, "did:x402:agent-9");
    let comps = SignatureComponents { authority: "grpc.example.com".to_string(), path: "/Subscribe?stream=1".to_string() };
    let params = SignatureParams {
        created: 1000,
        expires: 1300,
        key_id: "agent-9".to_string(),
        alg: SignatureAlgorithm::Ed25519,
        nonce: "nn".to_string(),
        tag: "agent-payer-auth".to_string(),
    };
    let public = Ed25519Keypair::from_secret([9u8; 32]).public;
    assert!(RFC9421Signature::verify_ed25519(&comps, &params, &public, &headers[1].1));
}

#[test]
fn signer_without_identity_and_bad_url() {
    let c = client(false);
    let headers = c.sign_request("https://grpc.example.com/x", "POST").unwrap();
    assert_eq!(headers.len(), 2);
    assert!(c.sign_request_at("not a url", "GET", 0, "n".to_string()).is_err());
    assert!(c.get_agent_identity().is_none());
}

#[test]
fn discovery_defaults() {
    let d = DiscoveryConfig::default();
    assert_eq!(d.registry_url, "https://registry.x402.network");
    assert_eq!(d.timeout, 10);
}

#[test]
fn signer_covers_hostless_urls_and_reports_network_errors() {
    let c = client(false);
    let headers = c.sign_request_at("unix:/run/agent.sock", "GET", 10, "n".to_string()).unwrap();
    let comps = SignatureComponents { authority: String::new(), path: "/run/agent.sock".to_string() };
    let params = SignatureParams {
        created: 10,
        expires: 310,
        key_id: "agent-9".to_string(),
        alg: SignatureAlgorithm::Ed25519,
        nonce: "n".to_string(),
        tag: "agent-payer-auth".to_string(),
    };
    let public = Ed25519Keypair::from_secret([9u8; 32]).public;
    assert!(RFC9421Signature::verify_ed25519(&comps, &params, &public, &headers[1].1));
    assert!(matches!(c.sign_request_at("no scheme", "GET", 0, "n".to_string()), Err(x402_gate::error::X402Error::Network(_))));
    assert!(matches!(c.sign_request("::", "GET"), Err(x402_gate::error::X402Error::Network(_))));
}

#[test]
fn sign_request_uses_a_hex_nonce() {
    let c = client(false);
    let headers = c.sign_request("https://grpc.example.com/p", "GET").unwrap();
    let input = &headers[0].1;
    let start = input.find("nonce=\"").unwrap() + 7;
    let nonce: String = input[start..].chars().take_while(|ch| *ch != '"').collect();
    assert_eq!(nonce.len(), 32);
    assert!(nonce.chars().all(|ch| ch.is_ascii_hexdigit() && !ch.is_ascii_uppercase()));
}
