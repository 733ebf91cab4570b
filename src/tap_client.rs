//! The client side: signing outgoing requests as a registered agent.
use vstd::prelude::*;

use crate::crypto::{
    ed25519_signature_of, hex_text, parse_url, url_host_of, url_parses, url_path_of, url_query_of,
};
use crate::error::X402Error;
use crate::text::{push_str, string_from_chars};
use crate::rfc9421::{
    ComponentsView, Ed25519Keypair, ParamsView, RFC9421Signature, SignatureAlgorithm,
    SignatureComponents, SignatureParams, signature_input_value, signature_value, signed_message,
};

verus! {

/// Seconds for which a request signature stays valid.
pub const SIGNATURE_LIFETIME: u64 = 300;

#[derive(Debug, Clone)]
pub struct TAPConfig {
    pub key_id: String,
    pub keypair: Ed25519Keypair,
    pub algorithm: SignatureAlgorithm,
    pub registry_url: Option<String>,
    pub did: Option<String>,
    pub visa_tap_cert: Option<String>,
}

/// An agent's registered identity, sent along with signed requests.
#[derive(Debug, Clone)]
pub struct AgentIdentity {
    pub did: String,
    pub visa_tap_cert: String,
    pub wallet_address: String,
    pub reputation_score: Option<u32>,
}

pub struct TAPClient {
    pub config: TAPConfig,
    pub agent_identity: Option<AgentIdentity>,
}

/// The parameters of a request signed at `now` with `nonce`: valid for
/// `SIGNATURE_LIFETIME` seconds, tagged `agent-payer-auth`.
pub open spec fn request_params(
    key_id: Seq<char>,
    alg: SignatureAlgorithm,
    now: nat,
    nonce: Seq<char>,
) -> ParamsView {
    ParamsView {
        created: now,
        expires: (now + SIGNATURE_LIFETIME) as nat,
        key_id,
        alg,
        nonce,
        tag: "agent-payer-auth"@,
    }
}

/// The headers of a signed request, in order: `Signature-Input`,
/// `Signature`, and when the agent has an identity, `X-Agent-DID`,
/// `X-Agent-Cert` and `X-Agent-Wallet`.
pub open spec fn signed_headers(
    config: TAPConfig,
    identity: Option<AgentIdentity>,
    c: ComponentsView,
    p: ParamsView,
) -> Seq<(Seq<char>, Seq<char>)> {
    let base = seq![
        ("Signature-Input"@, signature_input_value(p)),
        ("Signature"@, signature_value(ed25519_signature_of(config.keypair.secret@, signed_message(c, p)))),
    ];
    match identity {
        Some(i) => base + seq![
            ("X-Agent-DID"@, i.did@),
            ("X-Agent-Cert"@, i.visa_tap_cert@),
            ("X-Agent-Wallet"@, i.wallet_address@),
        ],
        None => base,
    }
}

/// The covered components of a request for a parsed URL: the host (empty
/// when there is none), and the path followed by `?` and the query when
/// there is one.
pub open spec fn request_components(url: Seq<char>) -> ComponentsView {
    ComponentsView {
        authority: match url_host_of(url) {
            Some(h) => h,
            None => Seq::empty(),
        },
        path: match url_query_of(url) {
            Some(q) => url_path_of(url) + "?"@ + q,
            None => url_path_of(url),
        },
    }
}

pub open spec fn headers_view(h: Seq<(String, String)>) -> Seq<(Seq<char>, Seq<char>)> {
    h.map_values(|e: (String, String)| (e.0@, e.1@))
}

impl TAPClient {
    pub fn new(config: TAPConfig, agent_identity: Option<AgentIdentity>) -> (r: TAPClient)
        ensures
            r.config == config,
            r.agent_identity == agent_identity,
    {
        TAPClient { config, agent_identity }
    }

    pub fn get_agent_identity(&self) -> (r: Option<&AgentIdentity>)
        ensures
            match r {
                Some(i) => self.agent_identity == Some(*i),
                None => self.agent_identity is None,
            },
    {
        self.agent_identity.as_ref()
    }

    /// The covered components of a request for `url`; fails with the
    /// parse error's text when the URL does not parse.
    fn components_of(url: &str) -> (r: Result<SignatureComponents, X402Error>)
        ensures
            r is Ok <==> url_parses(url@),
            r is Err ==> r matches Err(X402Error::Network(_)),
            r matches Ok(c) ==> c@ == request_components(url@),
    {
        let parts = match parse_url(url) {
            Ok(p) => p,
            Err(e) => return Err(X402Error::Network(e)),
        };
        let authority = match parts.host {
            Some(h) => h,
            None => String::new(),
        };
        let mut path: Vec<char> = Vec::new();
        push_str(&mut path, parts.path.as_str());
        match &parts.query {
            Some(q) => {
                push_str(&mut path, "?");
                push_str(&mut path, q.as_str());
            },
            None => {},
        }
        let c = SignatureComponents { authority, path: string_from_chars(path.as_slice()) };
        proof {
            assert(c@.path =~= request_components(url@).path);
        }
        Ok(c)
    }

    /// Signs a request for `url` at time `now` (seconds since the epoch)
    /// with `nonce`: the covered components are the URL's host and its path
    /// with query. Fails with a network error when the URL does not parse.
    pub fn sign_request_at(&self, url: &str, method: &str, now: u64, nonce: String) -> (r: Result<
        Vec<(String, String)>,
        X402Error,
    >)
        requires
            now <= u64::MAX - SIGNATURE_LIFETIME,
        ensures
            r is Ok <==> url_parses(url@),
            r is Err ==> r matches Err(X402Error::Network(_)),
            r matches Ok(h) ==> headers_view(h@) == signed_headers(
                self.config,
                self.agent_identity,
                request_components(url@),
                request_params(self.config.key_id@, self.config.algorithm, now as nat, nonce@),
            ),
    {
        let components = match Self::components_of(url) {
            Ok(c) => c,
            Err(e) => return Err(e),
        };
        let params = SignatureParams {
            created: now,
            expires: now + SIGNATURE_LIFETIME,
            key_id: self.config.key_id.clone(),
            alg: self.config.algorithm,
            nonce,
            tag: "agent-payer-auth".to_owned(),
        };
        let result = RFC9421Signature::sign_ed25519(&components, &params, &self.config.keypair);
        let mut headers: Vec<(String, String)> = Vec::new();
        headers.push(("Signature-Input".to_owned(), result.signature_input));
        headers.push(("Signature".to_owned(), result.signature));
        match &self.agent_identity {
            Some(identity) => {
                headers.push(("X-Agent-DID".to_owned(), identity.did.clone()));
                headers.push(("X-Agent-Cert".to_owned(), identity.visa_tap_cert.clone()));
                headers.push(("X-Agent-Wallet".to_owned(), identity.wallet_address.clone()));
            },
            None => {},
        }
        proof {
            let p = request_params(self.config.key_id@, self.config.algorithm, now as nat, nonce@);
            assert(params@ == p);
            let want = signed_headers(self.config, self.agent_identity, components@, p);
            assert(headers_view(headers@) =~= want);
        }
        Ok(headers)
    }

    /// Signs a request for `url` now, with a fresh nonce: sixteen random
    /// bytes in lowercase hexadecimal. Fails with a network error when the
    /// URL does not parse, and with a configuration error when the clock
    /// cannot be read.
    pub fn sign_request(&self, url: &str, method: &str) -> (r: Result<
        Vec<(String, String)>,
        X402Error,
    >)
        ensures
            !url_parses(url@) ==> r matches Err(X402Error::Network(_)),
            r is Err ==> !url_parses(url@) || r matches Err(X402Error::InvalidConfig(_)),
            r matches Ok(h) ==> exists|now: nat, b: Seq<u8>|
                #![trigger request_params(self.config.key_id@, self.config.algorithm, now, hex_text(b))]
                b.len() == 16 && headers_view(h@) == signed_headers(
                    self.config,
                    self.agent_identity,
                    request_components(url@),
                    request_params(self.config.key_id@, self.config.algorithm, now, hex_text(b)),
                ),
    {
        let components = match Self::components_of(url) {
            Ok(c) => c,
            Err(e) => return Err(e),
        };
        let now = match RFC9421Signature::get_current_timestamp() {
            Some(t) => t,
            None => return Err(X402Error::InvalidConfig("clock reads before the epoch".to_owned())),
        };
        if now > u64::MAX - SIGNATURE_LIFETIME {
            return Err(X402Error::InvalidConfig("clock out of range".to_owned()));
        }
        let nonce = RFC9421Signature::generate_nonce();
        let r = self.sign_request_at(url, method, now, nonce);
        proof {
            if r is Ok {
                let b = choose|b: Seq<u8>| b.len() == 16 && nonce@ == hex_text(b);
                assert(request_params(self.config.key_id@, self.config.algorithm, now as nat, nonce@)
                    == request_params(self.config.key_id@, self.config.algorithm, now as nat, hex_text(b)));
            }
        }
        r
    }
}

} // verus!
