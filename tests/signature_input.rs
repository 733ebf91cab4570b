use x402_gate::interceptor::{GateError, X402Interceptor};
use x402_gate::rfc9421::{Ed25519Keypair, RFC9421Signature, SignatureAlgorithm, SignatureComponents, SignatureParams};
use x402_gate::signature_input::{parse_signature_input, verify_signed_request, RequestSignatureError};
use x402_gate::tap::{IdentityCache, IdentityFetch, TAPIdentity, TapError};
use x402_gate::tap_client::{TAPClient, TAPConfig};

fn params(alg: SignatureAlgorithm) -> SignatureParams {
    SignatureParams {
        created: 1_700_000_000,
        expires: 1_700_000_300,
        key_id: "agent-5".to_string(),
        alg,
        nonce: "0f3a".to_string(),
        tag: "agent-payer-auth".to_string(),
    }
}

fn components() -> SignatureComponents {
    SignatureComponents { authority: "svc.example.com".to_string(), path: "/infer".to_string() }
}

#[test]
fn signature_input_reads_back() {
    for alg in [SignatureAlgorithm::Ed25519, SignatureAlgorithm::RsaPssSha256] {
        let p = params(alg);
        let text = RFC9421Signature::create_signature_input(&p);
        let q = parse_signature_input(&text).unwrap();
        assert_eq!(q.created, p.created);
        assert_eq!(q.expires, p.expires);
        assert_eq!(q.key_id, p.key_id);
        assert_eq!(q.alg, p.alg);
        assert_eq!(q.nonce, p.nonce);
        assert_eq!(q.tag, p.tag);
    }
}

#[test]
fn signature_input_edge_values() {
    let mut p = params(SignatureAlgorithm::Ed25519);
    p.created = 0;
    p.expires = u64::MAX;
    p.key_id = String::new();
    p.tag = "a;b=c".to_string();
    let q = parse_signature_input(&RFC9421Signature::create_signature_input(&p)).unwrap();
    assert_eq!(q.created, 0);
    assert_eq!(q.expires, u64::MAX);
    assert_eq!(q.key_id, "");
    assert_eq!(q.tag, "a;b=c");
}

#[test]
fn malformed_signature_inputs_are_refused() {
    let good = RFC9421Signature::create_signature_input(&params(SignatureAlgorithm::Ed25519));
    assert!(parse_signature_input(&good).is_some());
    assert!(parse_signature_input("").is_none());
    assert!(parse_signature_input(&good.replace("sig2=", "sig1=")).is_none());
    assert!(parse_signature_input(&good.replace("created=1700000000", "created=01700000000")).is_none());
    assert!(parse_signature_input(&good.replace("expires=1700000300", "expires=18446744073709551616")).is_none());
    assert!(parse_signature_input(&good.replace("alg=\"ed25519\"", "alg=\"hmac\"")).is_none());
    assert!(parse_signature_input(&format!("{} ", good)).is_none());
    assert!(parse_signature_input(&good.replace("; nonce", ";nonce")).is_none());
}

#[test]
fn signed_request_verifies_and_recovers_parameters() {
    let kp = Ed25519Keypair::from_secret([5u8; 32]);
    let p = params(SignatureAlgorithm::Ed25519);
    let signed = RFC9421Signature::sign_ed25519(&components(), &p, &kp);
    let got = verify_signed_request(&components(), &signed.signature_input, &signed.signature, &kp.public, 1_700_000_100)
        .unwrap();
    assert_eq!(got.key_id, "agent-5");
    assert_eq!(got.alg, SignatureAlgorithm::Ed25519);
    assert_eq!(got.created, p.created);
}

#[test]
fn signed_request_failures() {
    let kp = Ed25519Keypair::from_secret([5u8; 32]);
    let p = params(SignatureAlgorithm::Ed25519);
    let signed = RFC9421Signature::sign_ed25519(&components(), &p, &kp);
    assert_eq!(
        verify_signed_request(&components(), &signed.signature_input, &signed.signature, &kp.public, 1_700_000_301)
            .unwrap_err(),
        RequestSignatureError::Expired
    );
    assert_eq!(
        verify_signed_request(&components(), "sig2=()", &signed.signature, &kp.public, 0).unwrap_err(),
        RequestSignatureError::MalformedInput
    );
    let other = Ed25519Keypair::from_secret([6u8; 32]);
    assert_eq!(
        verify_signed_request(&components(), &signed.signature_input, &signed.signature, &other.public, 0).unwrap_err(),
        RequestSignatureError::BadSignature
    );
    let tampered = signed.signature_input.replace("agent-5", "agent-6");
    assert_eq!(
        verify_signed_request(&components(), &tampered, &signed.signature, &kp.public, 0).unwrap_err(),
        RequestSignatureError::BadSignature
    );
}

#[test]
fn gate_admits_the_clients_header_pair() {
    let kp = Ed25519Keypair::from_secret([5u8; 32]);
    let client = TAPClient::new(
        TAPConfig {
            key_id: "agent-5".to_string(),
            keypair: kp.clone(),
            algorithm: SignatureAlgorithm::Ed25519,
            registry_url: None,
            did: None,
            visa_tap_cert: None,
        },
        None,
    );
    let headers = client.sign_request_at("https://svc.example.com/infer", "POST", 5_000, "ab".to_string()).unwrap();
    let gate = X402Interceptor::new("r".to_string(), "rpc".to_string(), "Recipient".to_string());
    let sig = gate.authenticate_request(Some(&headers[0].1), Some(&headers[1].1), 5_100).unwrap();
    assert_eq!(sig.key_id, "agent-5");
    assert_eq!(sig.algorithm, "ed25519");
    assert_eq!(sig.expires, Some(5_300));
    let identity = TAPIdentity {
        key_id: "agent-5".to_string(),
        algorithm: "ed25519".to_string(),
        public_key: base64::encode(kp.public),
        domain: "d".to_string(),
    };
    let mut cache = IdentityCache::new();
    let id = gate.confirm_identity(&mut cache, &sig, IdentityFetch::Found(identity), &components()).unwrap();
    assert_eq!(id.key_id, "agent-5");
    assert_eq!(
        gate.authenticate_request(Some(&headers[0].1), Some(&headers[1].1), 5_301).unwrap_err(),
        GateError::SignatureExpired
    );
    assert_eq!(gate.authenticate_request(Some(&headers[0].1), None, 0).unwrap_err(), GateError::MissingSignature);
    assert_eq!(
        gate.authenticate_request(Some("x"), Some(&headers[1].1), 0).unwrap_err(),
        GateError::Unauthenticated(TapError::MalformedInput)
    );
    assert_eq!(gate.authenticate_request(None, None, 0).unwrap_err(), GateError::MissingSignature);
}
