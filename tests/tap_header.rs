use x402_gate::rfc9421::{Ed25519Keypair, RFC9421Signature, SignatureAlgorithm, SignatureComponents, SignatureParams};
use x402_gate::tap::{
    parse_signature, IdentityCache, IdentityFetch, SignatureHeaderError, TAPIdentity, TAPVerifier, TapError,
};

fn components() -> SignatureComponents {
    SignatureComponents { authority: "grpc.example.com".to_string(), path: "/geyser.Geyser/Subscribe".to_string() }
}

fn keypair() -> Ed25519Keypair {
    Ed25519Keypair::from_secret([3u8; 32])
}

fn identity(kp: &Ed25519Keypair, algorithm: &str) -> TAPIdentity {
    TAPIdentity {
        key_id: "agent-7".to_string(),
        algorithm: algorithm.to_string(),
        public_key: base64::encode(kp.public),
        domain: "agent.example.com".to_string(),
    }
}

fn signed_header(kp: &Ed25519Keypair, created: u64, expires: u64) -> String {
    let params = SignatureParams {
        created,
        expires,
        key_id: "agent-7".to_string(),
        alg: SignatureAlgorithm::Ed25519,
        nonce: "n1".to_string(),
        tag: "agent-payer-auth".to_string(),
    };
    let sig = RFC9421Signature::sign_ed25519(&components(), &params, kp).signature;
    format!(
        "keyid=\"agent-7\", algorithm=\"ed25519\", signature=\"{}\", headers=\"@authority @path\", created={}, expires={}, nonce=\"n1\", tag=\"agent-payer-auth\"",
        sig, created, expires
    )
}

#[test]
fn parses_full_header() {
    let h = "keyid=\"k1\", algorithm=\"ed25519\", signature=\"c2ln\", headers=\"@authority  @path\", created=100, expires=-5, nonce=\"xyz\", tag=\"t\"";
    let s = parse_signature(h).unwrap();
    assert_eq!(s.key_id, "k1");
    assert_eq!(s.algorithm, "ed25519");
    assert_eq!(s.signature, "c2ln");
    assert_eq!(s.headers, vec!["@authority".to_string(), "@path".to_string()]);
    assert_eq!(s.created, 100);
    assert_eq!(s.expires, Some(-5));
    assert_eq!(s.nonce, Some("xyz".to_string()));
    assert_eq!(s.tag, Some("t".to_string()));
}

#[test]
fn optional_fields_may_be_absent() {
    let s = parse_signature("keyid=k, algorithm=a, signature=s, headers=h, created=+7").unwrap();
    assert_eq!(s.created, 7);
    assert_eq!(s.expires, None);
    assert_eq!(s.nonce, None);
    assert_eq!(s.tag, None);
    assert_eq!(s.headers, vec!["h".to_string()]);
}

#[test]
fn later_field_wins_and_pieces_without_equals_are_skipped() {
    let s = parse_signature(" keyid = a ,junk, keyid=b, algorithm=x, signature=y=, headers=, created=1").unwrap();
    assert_eq!(s.key_id, "b");
    assert_eq!(s.signature, "y=");
    assert!(s.headers.is_empty());
}

#[test]
fn missing_fields_are_reported_in_order() {
    assert_eq!(parse_signature("").unwrap_err(), SignatureHeaderError::MissingKeyId);
    assert_eq!(parse_signature("keyid=k").unwrap_err(), SignatureHeaderError::MissingAlgorithm);
    assert_eq!(parse_signature("keyid=k,algorithm=a").unwrap_err(), SignatureHeaderError::MissingSignature);
    assert_eq!(
        parse_signature("keyid=k,algorithm=a,signature=s").unwrap_err(),
        SignatureHeaderError::MissingHeaders
    );
    assert_eq!(
        parse_signature("keyid=k,algorithm=a,signature=s,headers=h").unwrap_err(),
        SignatureHeaderError::MissingCreated
    );
}

#[test]
fn non_integer_times_are_rejected() {
    let base = "keyid=k,algorithm=a,signature=s,headers=h";
    assert_eq!(parse_signature(&format!("{},created=12x", base)).unwrap_err(), SignatureHeaderError::InvalidCreated);
    assert_eq!(parse_signature(&format!("{},created=-", base)).unwrap_err(), SignatureHeaderError::InvalidCreated);
    assert_eq!(
        parse_signature(&format!("{},created=9223372036854775808", base)).unwrap_err(),
        SignatureHeaderError::InvalidCreated
    );
    assert_eq!(
        parse_signature(&format!("{},created=1,expires=soon", base)).unwrap_err(),
        SignatureHeaderError::InvalidExpires
    );
    let s = parse_signature(&format!("{},created=-9223372036854775808,expires=9223372036854775807", base)).unwrap();
    assert_eq!(s.created, i64::MIN);
    assert_eq!(s.expires, Some(i64::MAX));
}

#[test]
fn expired_signature_is_rejected_even_when_valid() {
    let kp = keypair();
    let v = TAPVerifier::new("https://registry.example".to_string());
    let header = signed_header(&kp, 1000, 2000);
    assert!(matches!(v.begin_verification(&header, 2001), Err(TapError::SignatureExpired)));
    assert!(v.begin_verification(&header, 2000).is_ok());
}

#[test]
fn header_errors_are_passed_on() {
    let v = TAPVerifier::new("r".to_string());
    assert!(matches!(
        v.begin_verification("keyid=k", 0),
        Err(TapError::Header(SignatureHeaderError::MissingAlgorithm))
    ));
}

#[test]
fn signed_header_verifies_against_identity() {
    let kp = keypair();
    let v = TAPVerifier::new("r".to_string());
    let sig = v.begin_verification(&signed_header(&kp, 1000, 2000), 1500).unwrap();
    assert_eq!(sig.key_id, "agent-7");
    assert_eq!(sig.algorithm, "ed25519");
    assert_eq!(v.finish_verification(&sig, &identity(&kp, "ed25519"), &components()), Ok(()));
}

#[test]
fn algorithm_mismatch_is_rejected() {
    let kp = keypair();
    let v = TAPVerifier::new("r".to_string());
    let sig = v.begin_verification(&signed_header(&kp, 1000, 2000), 1500).unwrap();
    assert_eq!(
        v.finish_verification(&sig, &identity(&kp, "rsa-pss-sha256"), &components()),
        Err(TapError::AlgorithmMismatch)
    );
}

#[test]
fn wrong_key_or_changed_request_is_rejected() {
    let kp = keypair();
    let v = TAPVerifier::new("r".to_string());
    let sig = v.begin_verification(&signed_header(&kp, 1000, 2000), 1500).unwrap();
    let other = Ed25519Keypair::from_secret([4u8; 32]);
    assert_eq!(
        v.finish_verification(&sig, &identity(&other, "ed25519"), &components()),
        Err(TapError::InvalidSignature)
    );
    let mut c = components();
    c.path = "/geyser.Geyser/Ping".to_string();
    assert_eq!(v.finish_verification(&sig, &identity(&kp, "ed25519"), &c), Err(TapError::InvalidSignature));
}

#[test]
fn identity_url_is_built() {
    let v = TAPVerifier::new("https://registry.example".to_string());
    assert_eq!(v.identity_url("agent-7"), "https://registry.example/agents/key/agent-7");
}

#[test]
fn cache_serves_hits_and_records_fetches() {
    let kp = keypair();
    let mut cache = IdentityCache::new();
    assert!(cache.get("agent-7").is_none());
    let r = TAPVerifier::resolve_identity(&mut cache, "agent-7", IdentityFetch::Found(identity(&kp, "ed25519")));
    assert_eq!(r.unwrap().key_id, "agent-7");
    assert_eq!(cache.get("agent-7").unwrap().algorithm, "ed25519");
    // A hit ignores what the registry would have said.
    let r = TAPVerifier::resolve_identity(&mut cache, "agent-7", IdentityFetch::Failed);
    assert_eq!(r.unwrap().domain, "agent.example.com");
    cache.insert("agent-7", identity(&kp, "rsa-pss-sha256"));
    assert_eq!(cache.get("agent-7").unwrap().algorithm, "rsa-pss-sha256");
}

#[test]
fn fetch_failures_are_reported_and_not_cached() {
    let mut cache = IdentityCache::new();
    assert_eq!(
        TAPVerifier::resolve_identity(&mut cache, "x", IdentityFetch::Failed).unwrap_err(),
        TapError::IdentityNotFound
    );
    assert_eq!(
        TAPVerifier::resolve_identity(&mut cache, "x", IdentityFetch::Unreachable).unwrap_err(),
        TapError::Network
    );
    assert!(cache.get("x").is_none());
}

#[test]
fn rsa_identities_are_reported_unsupported() {
    let kp = keypair();
    let v = TAPVerifier::new("r".to_string());
    let header = signed_header(&kp, 1000, 2000).replace("algorithm=\"ed25519\"", "algorithm=\"rsa-pss-sha256\"");
    let sig = v.begin_verification(&header, 1500).unwrap();
    assert_eq!(
        v.finish_verification(&sig, &identity(&kp, "rsa-pss-sha256"), &components()),
        Err(TapError::UnsupportedAlgorithm)
    );
}
