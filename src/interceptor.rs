//! The admission gate. A session is admitted in steps, each a decision on
//! what the step before produced and on what the outside world answered:
//! the signature header is parsed and checked for expiry; the identity is
//! resolved and the signature checked against it; the payment proof is
//! read; the ledger's record decides the payment, which sets up the quota.
//! Each later message is then checked against the quota and consumed
//! atomically.
use vstd::prelude::*;

use crate::payment::{LedgerLookup, PaymentProof, PaymentVerifier, payment_confirmed};
use crate::quota::{
    QuotaManager, checked_consume, deposit_bytes, determine_tier, initial_usage, quota_available,
    tier_for,
};
use crate::rfc9421::{ParamsView, SignatureComponents};
use crate::signature_input::{parse_signature_input, parsed_input};
use crate::tap::{
    IdentityCache, IdentityFetch, TAPIdentity, TAPSignature, TAPVerifier,
    SignatureHeaderView, TapError, honestly_signed, identity_check, is_expired, parsed_signature,
    resolved_identity,
};

verus! {

#[derive(Debug, Clone, Copy, PartialEq, Eq, Structural)]
pub enum GateError {
    /// The request carries no signature header.
    MissingSignature,
    /// The signature header does not parse, the identity is unknown, or
    /// the signature does not check out against it.
    Unauthenticated(TapError),
    /// The signature's `expires` time has passed.
    SignatureExpired,
    /// The request carries no payment proof.
    PaymentRequired,
    /// The payment proof is malformed, or its amount cannot be held.
    InvalidPaymentProof,
    /// The ledger does not confirm the payment.
    PaymentRejected,
    /// The registry or the ledger could not be reached.
    Unavailable,
    /// The message does not fit in the quota; the remaining bytes are given.
    ResourceExhausted(usize),
}

/// What the request carried as payment proof.
pub enum ProofInput {
    Missing,
    /// Present but not a valid proof.
    Malformed,
    Parsed(PaymentProof),
}

/// The outcome of reading the payment proof.
pub open spec fn proof_outcome(input: ProofInput) -> Result<PaymentProof, GateError> {
    match input {
        ProofInput::Missing => Err(GateError::PaymentRequired),
        ProofInput::Malformed => Err(GateError::InvalidPaymentProof),
        ProofInput::Parsed(p) => Ok(p),
    }
}

/// The admission error that a failed identity check becomes.
pub open spec fn identity_error(e: TapError) -> GateError {
    if e == TapError::Network {
        GateError::Unavailable
    } else if e == TapError::SignatureExpired {
        GateError::SignatureExpired
    } else {
        GateError::Unauthenticated(e)
    }
}

/// The outcome of the identity step.
pub open spec fn identity_outcome(
    cache: Map<Seq<char>, TAPIdentity>,
    signature: TAPSignature,
    fetched: IdentityFetch,
    components: crate::rfc9421::ComponentsView,
) -> Result<TAPIdentity, GateError> {
    match resolved_identity(cache, signature.key_id@, fetched) {
        Err(e) => Err(identity_error(e)),
        Ok(i) => match identity_check(signature@, i, components) {
            Ok(_) => Ok(i),
            Err(e) => Err(identity_error(e)),
        },
    }
}

/// The parsed signature that a `Signature-Input` / `Signature` pair stands
/// for: its parameters, with the `Signature` value as the signature.
pub open spec fn pair_signature(p: ParamsView, signature: Seq<char>) -> SignatureHeaderView {
    SignatureHeaderView {
        key_id: p.key_id,
        algorithm: p.alg.name(),
        signature,
        headers: seq!["@authority"@, "@path"@],
        created: p.created as int,
        expires: Some(p.expires as int),
        nonce: Some(p.nonce),
        tag: Some(p.tag),
    }
}

/// The text of an optional header.
pub open spec fn header_text(h: Option<&str>) -> Option<Seq<char>> {
    match h {
        Some(t) => Some(t@),
        None => None,
    }
}

/// A result with the parsed signature seen as values.
pub open spec fn result_view(r: Result<TAPSignature, GateError>) -> Result<
    SignatureHeaderView,
    GateError,
> {
    match r {
        Ok(s) => Ok(s@),
        Err(e) => Err(e),
    }
}

/// The outcome of the first step for the combined signature header.
pub open spec fn header_verdict(header: Option<Seq<char>>, now: int) -> Result<
    SignatureHeaderView,
    GateError,
> {
    match header {
        None => Err(GateError::MissingSignature),
        Some(h) => match parsed_signature(h) {
            Err(e) => Err(GateError::Unauthenticated(TapError::Header(e))),
            Ok(v) => if is_expired(v, now) {
                Err(GateError::SignatureExpired)
            } else {
                Ok(v)
            },
        },
    }
}

/// The outcome of the first step for the `Signature-Input` / `Signature`
/// pair.
pub open spec fn pair_verdict(input: Option<Seq<char>>, signature: Option<Seq<char>>, now: int) -> Result<
    SignatureHeaderView,
    GateError,
> {
    match (input, signature) {
        (Some(i), Some(sv)) => match parsed_input(i) {
            None => Err(GateError::Unauthenticated(TapError::MalformedInput)),
            Some(p) => if p.created > i64::MAX || p.expires > i64::MAX {
                Err(GateError::Unauthenticated(TapError::MalformedInput))
            } else if now > p.expires {
                Err(GateError::SignatureExpired)
            } else {
                Ok(pair_signature(p, sv))
            },
        },
        _ => Err(GateError::MissingSignature),
    }
}

pub struct X402Interceptor {
    pub tap_verifier: TAPVerifier,
    pub payment_verifier: PaymentVerifier,
    pub payment_recipient: String,
}

impl X402Interceptor {
    pub fn new(tap_registry_url: String, solana_rpc_url: String, payment_recipient: String) -> (r:
        X402Interceptor)
        ensures
            r.tap_verifier.registry_url == tap_registry_url,
            r.payment_verifier.rpc_url == solana_rpc_url,
            r.payment_verifier.payment_recipient@ == payment_recipient@,
            r.payment_recipient == payment_recipient,
    {
        X402Interceptor {
            tap_verifier: TAPVerifier::new(tap_registry_url),
            payment_verifier: PaymentVerifier::new(solana_rpc_url, payment_recipient.clone()),
            payment_recipient,
        }
    }

    /// The first step: a signature header must be present, parse, and not
    /// have expired at `now`.
    pub fn authenticate(&self, signature_header: Option<&str>, now: i64) -> (r: Result<
        TAPSignature,
        GateError,
    >)
        ensures
            result_view(r) == header_verdict(header_text(signature_header), now as int),
    {
        let header = match signature_header {
            Some(h) => h,
            None => return Err(GateError::MissingSignature),
        };
        match self.tap_verifier.begin_verification(header, now) {
            Ok(s) => Ok(s),
            Err(TapError::SignatureExpired) => Err(GateError::SignatureExpired),
            Err(e) => Err(GateError::Unauthenticated(e)),
        }
    }

    /// The first step for a request signed with the `Signature-Input` /
    /// `Signature` header pair: both must be present, the input must read
    /// back as parameters, and the signature must not have expired at `now`.
    /// The pair is then handled as a parsed signature header.
    pub fn authenticate_pair(
        &self,
        signature_input: Option<&str>,
        signature: Option<&str>,
        now: i64,
    ) -> (r: Result<TAPSignature, GateError>)
        ensures
            result_view(r) == pair_verdict(
                header_text(signature_input),
                header_text(signature),
                now as int,
            ),
    {
        let (input, value) = match (signature_input, signature) {
            (Some(i), Some(v)) => (i, v),
            _ => return Err(GateError::MissingSignature),
        };
        let params = match parse_signature_input(input) {
            Some(p) => p,
            None => return Err(GateError::Unauthenticated(TapError::MalformedInput)),
        };
        if params.created > i64::MAX as u64 || params.expires > i64::MAX as u64 {
            return Err(GateError::Unauthenticated(TapError::MalformedInput));
        }
        let expires = params.expires as i64;
        if now > expires {
            return Err(GateError::SignatureExpired);
        }
        let mut headers: Vec<String> = Vec::new();
        headers.push("@authority".to_owned());
        headers.push("@path".to_owned());
        let sig = TAPSignature {
            key_id: params.key_id,
            algorithm: params.alg.as_str().to_owned(),
            signature: value.to_owned(),
            headers,
            created: params.created as i64,
            expires: Some(expires),
            nonce: Some(params.nonce),
            tag: Some(params.tag),
        };
        proof {
            assert(sig@.headers =~= seq!["@authority"@, "@path"@]);
            assert(sig@ == pair_signature(params@, value@));
        }
        Ok(sig)
    }

    /// The first step for either form: with a `Signature-Input` value the
    /// pair form is read, else the combined `Signature` header.
    pub fn authenticate_request(
        &self,
        signature_input: Option<&str>,
        signature: Option<&str>,
        now: i64,
    ) -> (r: Result<TAPSignature, GateError>)
        ensures
            result_view(r) == if signature_input is Some {
                pair_verdict(header_text(signature_input), header_text(signature), now as int)
            } else {
                header_verdict(header_text(signature), now as int)
            },
    {
        if signature_input.is_some() {
            self.authenticate_pair(signature_input, signature, now)
        } else {
            self.authenticate(signature, now)
        }
    }

    /// The second step: resolve the signer's identity (from the cache, or
    /// from the registry's answer `fetched` on a miss) and check the
    /// signature against it over the request's components.
    pub fn confirm_identity(
        &self,
        cache: &mut IdentityCache,
        signature: &TAPSignature,
        fetched: IdentityFetch,
        components: &SignatureComponents,
    ) -> (r: Result<TAPIdentity, GateError>)
        requires
            old(cache).wf(),
        ensures
            final(cache).wf(),
            r == identity_outcome(old(cache)@, *signature, fetched, components@),
            match resolved_identity(old(cache)@, signature.key_id@, fetched) {
                Ok(i) => honestly_signed(signature@, i, components@) ==> r == Ok::<_, GateError>(i),
                Err(_) => true,
            },
            final(cache)@ == match resolved_identity(old(cache)@, signature.key_id@, fetched) {
                Ok(i) => old(cache)@.insert(signature.key_id@, i),
                Err(_) => old(cache)@,
            },
    {
        let identity = match TAPVerifier::resolve_identity(
            cache,
            signature.key_id.as_str(),
            fetched,
        ) {
            Ok(i) => i,
            Err(TapError::Network) => return Err(GateError::Unavailable),
            Err(e) => return Err(GateError::Unauthenticated(e)),
        };
        self.check_identity(signature, identity, components)
    }

    /// Checks the signature against an identity already resolved (a cache
    /// hit): the identity is returned when it checks out.
    pub fn check_identity(
        &self,
        signature: &TAPSignature,
        identity: TAPIdentity,
        components: &SignatureComponents,
    ) -> (r: Result<TAPIdentity, GateError>)
        ensures
            r == match identity_check(signature@, identity, components@) {
                Ok(_) => Ok::<_, GateError>(identity),
                Err(e) => Err(identity_error(e)),
            },
            honestly_signed(signature@, identity, components@) ==> r == Ok::<_, GateError>(
                identity,
            ),
    {
        match self.tap_verifier.finish_verification(signature, &identity, components) {
            Ok(()) => Ok(identity),
            Err(e) => Err(GateError::Unauthenticated(e)),
        }
    }

    /// The third step: a payment proof must be present and well formed.
    pub fn read_payment_proof(input: ProofInput) -> (r: Result<PaymentProof, GateError>)
        ensures
            r == proof_outcome(input),
    {
        match input {
            ProofInput::Missing => Err(GateError::PaymentRequired),
            ProofInput::Malformed => Err(GateError::InvalidPaymentProof),
            ProofInput::Parsed(p) => Ok(p),
        }
    }

    /// The last step of admission: on the ledger's answer for the proof,
    /// either reject, or set up the client's quota in the tier the deposit
    /// buys and return the client identifier (the identity's key id). No
    /// record is made on failure.
    pub fn grant_admission(
        &self,
        quotas: &mut QuotaManager,
        identity: &TAPIdentity,
        proof: &PaymentProof,
        lookup: &LedgerLookup,
        now: i64,
    ) -> (r: Result<String, GateError>)
        requires
            old(quotas).wf(),
        ensures
            final(quotas).wf(),
            lookup is Unreachable ==> r == Err::<String, _>(GateError::Unavailable),
            !(lookup is Unreachable) && !payment_confirmed(
                *lookup,
                self.payment_verifier.payment_recipient@,
                *proof,
            ) ==> r == Err::<String, _>(GateError::PaymentRejected),
            payment_confirmed(*lookup, self.payment_verifier.payment_recipient@, *proof)
                && deposit_bytes(proof.amount as nat, tier_for(proof.amount as nat))
                > usize::MAX ==> r == Err::<String, _>(GateError::InvalidPaymentProof),
            r is Err ==> final(quotas)@ == old(quotas)@,
            r matches Ok(c) ==> c@ == identity.key_id@ && payment_confirmed(
                *lookup,
                self.payment_verifier.payment_recipient@,
                *proof,
            ) && final(quotas)@ == old(quotas)@.insert(
                c@,
                initial_usage(tier_for(proof.amount as nat), proof.amount as nat, now as int),
            ),
            payment_confirmed(*lookup, self.payment_verifier.payment_recipient@, *proof)
                && deposit_bytes(proof.amount as nat, tier_for(proof.amount as nat))
                <= usize::MAX ==> r is Ok,
    {
        match self.payment_verifier.verify_payment(proof, lookup) {
            Ok(true) => {},
            Ok(false) => return Err(GateError::PaymentRejected),
            Err(_) => return Err(GateError::Unavailable),
        }
        let tier = determine_tier(proof.amount);
        let bytes = (proof.amount as u128 * tier.bytes_per_cash() as u128) / 1_000_000;
        if bytes > usize::MAX as u128 {
            return Err(GateError::InvalidPaymentProof);
        }
        let client_id = identity.key_id.clone();
        quotas.initialize_quota(client_id.as_str(), tier, proof.amount, now);
        Ok(client_id)
    }

    /// Per message after admission: atomically check that `data_size` bytes
    /// remain and consume them, or reject the message with the remaining
    /// byte count.
    pub fn check_quota(
        &self,
        quotas: &mut QuotaManager,
        client_id: &str,
        data_size: usize,
        now: i64,
    ) -> (r: Result<(), GateError>)
        requires
            old(quotas).wf(),
            quota_available(old(quotas)@, client_id@, data_size as nat) ==> old(quotas)@[client_id@].used_bytes
                + data_size <= usize::MAX,
        ensures
            final(quotas).wf(),
            quota_available(old(quotas)@, client_id@, data_size as nat) ==> r is Ok
                && final(quotas)@ == old(quotas)@.insert(
                client_id@,
                checked_consume(old(quotas)@[client_id@], data_size as nat, now as int),
            ),
            !quota_available(old(quotas)@, client_id@, data_size as nat) ==> final(quotas)@
                == old(quotas)@ && r == Err::<(), _>(
                GateError::ResourceExhausted(
                    if old(quotas)@.contains_key(client_id@) {
                        old(quotas)@[client_id@].remaining_bytes
                    } else {
                        0
                    },
                ),
            ),
    {
        match quotas.check_and_consume(client_id, data_size, now) {
            Ok(()) => Ok(()),
            Err(remaining) => Err(GateError::ResourceExhausted(remaining)),
        }
    }
}

} // verus!
