use x402_gate::rfc9421::{
    Ed25519Keypair, RFC9421Signature, SignatureAlgorithm, SignatureComponents, SignatureParams,
};

fn components() -> SignatureComponents {
    SignatureComponents { authority: "api.example.com".to_string(), path: "/v1/infer?x=1".to_string() }
}

fn params() -> SignatureParams {
    SignatureParams {
        created: 1700000000,
        expires: 1700000300,
        key_id: "agent-1".to_string(),
        alg: SignatureAlgorithm::Ed25519,
        nonce: "abc123".to_string(),
        tag: "agent-payer-auth".to_string(),
    }
}

fn keypair() -> Ed25519Keypair {
    Ed25519Keypair::from_secret([7u8; 32])
}

#[test]
fn algorithm_names() {
    assert_eq!(SignatureAlgorithm::Ed25519.as_str(), "ed25519");
    assert_eq!(SignatureAlgorithm::RsaPssSha256.as_str(), "rsa-pss-sha256");
}

#[test]
fn signature_base_is_exact() {
    let base = RFC9421Signature::create_signature_base(&components(), &params());
    let expected = "\"@authority\": api.example.com\n\"@path\": /v1/infer?x=1\n\"@signature-params\": (\"@authority\" \"@path\"); created=1700000000; expires=1700000300; keyid=\"agent-1\"; alg=\"ed25519\"; nonce=\"abc123\"; tag=\"agent-payer-auth\"";
    assert_eq!(base, expected);
}

#[test]
fn signature_base_renders_zero_and_large_numbers() {
    let mut p = params();
    p.created = 0;
    p.expires = u64::MAX;
    let base = RFC9421Signature::create_signature_base(&components(), &p);
    assert!(base.contains("created=0; expires=18446744073709551615;"));
}

#[test]
fn signature_input_value() {
    let input = RFC9421Signature::create_signature_input(&params());
    assert_eq!(
        input,
        "sig2=(\"@authority\" \"@path\"); created=1700000000; expires=1700000300; keyid=\"agent-1\"; alg=\"ed25519\"; nonce=\"abc123\"; tag=\"agent-payer-auth\""
    );
}

#[test]
fn sign_produces_header_values() {
    let r = RFC9421Signature::sign_ed25519(&components(), &params(), &keypair());
    assert!(r.signature_input.starts_with("sig2=(\"@authority\" \"@path\"); created=1700000000"));
    assert!(r.signature.starts_with("sig2=:"));
    assert!(r.signature.ends_with(':'));
    // 64 signature bytes are 88 base64 characters.
    assert_eq!(r.signature.len(), 6 + 88 + 1);
}

#[test]
fn signing_is_deterministic() {
    let a = RFC9421Signature::sign_ed25519(&components(), &params(), &keypair());
    let b = RFC9421Signature::sign_ed25519(&components(), &params(), &keypair());
    assert_eq!(a.signature, b.signature);
}

#[test]
fn sign_then_verify_succeeds() {
    let kp = keypair();
    let r = RFC9421Signature::sign_ed25519(&components(), &params(), &kp);
    assert!(RFC9421Signature::verify_ed25519(&components(), &params(), &kp.public, &r.signature));
}

#[test]
fn sign_then_verify_with_generated_key() {
    let kp = RFC9421Signature::generate_ed25519_keypair();
    assert_eq!(Ed25519Keypair::from_secret(kp.secret).public, kp.public);
    assert_ne!(kp.public, kp.secret);
    let r = RFC9421Signature::sign_ed25519(&components(), &params(), &kp);
    assert!(RFC9421Signature::verify_ed25519(&components(), &params(), &kp.public, &r.signature));
}

#[test]
fn verify_rejects_other_key() {
    let r = RFC9421Signature::sign_ed25519(&components(), &params(), &keypair());
    let other = Ed25519Keypair::from_secret([8u8; 32]);
    assert!(!RFC9421Signature::verify_ed25519(&components(), &params(), &other.public, &r.signature));
}

#[test]
fn one_changed_field_changes_base_and_fails_verification() {
    let kp = keypair();
    let c = components();
    let p = params();
    let base = RFC9421Signature::create_signature_base(&c, &p);
    let sig = RFC9421Signature::sign_ed25519(&c, &p, &kp).signature;

    let mut changed_c = Vec::new();
    let mut c1 = c.clone();
    c1.authority = "api.example.con".to_string();
    changed_c.push((c1, p.clone()));
    let mut c2 = c.clone();
    c2.path = "/v1/infer?x=2".to_string();
    changed_c.push((c2, p.clone()));
    let mut p1 = p.clone();
    p1.created = 1700000001;
    changed_c.push((c.clone(), p1));
    let mut p2 = p.clone();
    p2.expires = 1700000301;
    changed_c.push((c.clone(), p2));
    let mut p3 = p.clone();
    p3.key_id = "agent-2".to_string();
    changed_c.push((c.clone(), p3));
    let mut p4 = p.clone();
    p4.alg = SignatureAlgorithm::RsaPssSha256;
    changed_c.push((c.clone(), p4));
    let mut p5 = p.clone();
    p5.nonce = "abc124".to_string();
    changed_c.push((c.clone(), p5));
    let mut p6 = p.clone();
    p6.tag = "agent-payer-auti".to_string();
    changed_c.push((c.clone(), p6));

    for (cc, pp) in changed_c.iter() {
        assert_ne!(RFC9421Signature::create_signature_base(cc, pp), base);
        assert!(!RFC9421Signature::verify_ed25519(cc, pp, &kp.public, &sig));
    }
}

#[test]
fn verify_rejects_malformed_signature_values() {
    let kp = keypair();
    let r = RFC9421Signature::sign_ed25519(&components(), &params(), &kp);
    let inner = &r.signature[6..r.signature.len() - 1];
    assert!(!RFC9421Signature::verify_ed25519(&components(), &params(), &kp.public, inner));
    assert!(!RFC9421Signature::verify_ed25519(&components(), &params(), &kp.public, "sig2=:!!!:"));
    assert!(!RFC9421Signature::verify_ed25519(&components(), &params(), &kp.public, ""));
}

#[test]
fn nonce_is_32_lowercase_hex_digits() {
    let n = RFC9421Signature::generate_nonce();
    assert_eq!(n.len(), 32);
    assert!(n.chars().all(|c| c.is_ascii_digit() || ('a'..='f').contains(&c)));
    assert_ne!(n, RFC9421Signature::generate_nonce());
}

#[test]
fn current_timestamp_is_recent() {
    assert!(RFC9421Signature::get_current_timestamp().unwrap() > 1_600_000_000);
}
