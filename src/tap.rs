//! Server-side verification of agent signatures: the combined `Signature`
//! header (`keyid=..., algorithm=..., signature=..., headers=..., created=...`),
//! the identity cache in front of the registry, and the checks made once
//! the identity is known.
use vstd::prelude::*;

use crate::crypto::{base64_decode, base64_decoded};
use crate::table::StringTable;
use crate::rfc9421::{
    ParamsView, RFC9421Signature, SignatureAlgorithm, SignatureComponents, SignatureParams,
    signature_accepted,
};
use crate::text::{
    chars_equal, chars_of, find_char, first_index, is_first_index, i64_value,
    parse_i64, push_str, slice_chars, split_pieces, split_words, string_from_chars, trim,
    trim_chars, unquote, words,
};

verus! {

/// An agent identity as the registry publishes it.
#[derive(Debug, Clone)]
pub struct TAPIdentity {
    pub key_id: String,
    pub algorithm: String,
    pub public_key: String,
    pub domain: String,
}

impl TAPIdentity {
    /// A field-by-field copy.
    pub fn cloned(&self) -> (r: TAPIdentity)
        ensures
            r == *self,
    {
        TAPIdentity {
            key_id: self.key_id.clone(),
            algorithm: self.algorithm.clone(),
            public_key: self.public_key.clone(),
            domain: self.domain.clone(),
        }
    }
}

/// The fields of a parsed signature header.
#[derive(Debug, Clone)]
pub struct TAPSignature {
    pub key_id: String,
    pub algorithm: String,
    pub signature: String,
    pub headers: Vec<String>,
    pub created: i64,
    pub expires: Option<i64>,
    pub nonce: Option<String>,
    pub tag: Option<String>,
}

/// A parsed signature header as values.
pub ghost struct SignatureHeaderView {
    pub key_id: Seq<char>,
    pub algorithm: Seq<char>,
    pub signature: Seq<char>,
    pub headers: Seq<Seq<char>>,
    pub created: int,
    pub expires: Option<int>,
    pub nonce: Option<Seq<char>>,
    pub tag: Option<Seq<char>>,
}

pub open spec fn opt_string_view(s: Option<String>) -> Option<Seq<char>> {
    match s {
        Some(x) => Some(x@),
        None => None,
    }
}

pub open spec fn opt_i64_view(v: Option<i64>) -> Option<int> {
    match v {
        Some(x) => Some(x as int),
        None => None,
    }
}

impl View for TAPSignature {
    type V = SignatureHeaderView;

    open spec fn view(&self) -> SignatureHeaderView {
        SignatureHeaderView {
            key_id: self.key_id@,
            algorithm: self.algorithm@,
            signature: self.signature@,
            headers: self.headers@.map_values(|h: String| h@),
            created: self.created as int,
            expires: opt_i64_view(self.expires),
            nonce: opt_string_view(self.nonce),
            tag: opt_string_view(self.tag),
        }
    }
}

#[derive(Debug, Clone, Copy, PartialEq, Eq, Structural)]
pub enum SignatureHeaderError {
    MissingKeyId,
    MissingAlgorithm,
    MissingSignature,
    MissingHeaders,
    MissingCreated,
    InvalidCreated,
    InvalidExpires,
}

/// One `key=value` item of the header.
pub struct HeaderField {
    pub name: Vec<char>,
    pub value: Vec<char>,
}

impl View for HeaderField {
    type V = (Seq<char>, Seq<char>);

    open spec fn view(&self) -> (Seq<char>, Seq<char>) {
        (self.name@, self.value@)
    }
}

/// The field that one comma-separated piece of the header holds: the piece
/// is trimmed and split at its first `=`; the name is trimmed, the value
/// trimmed and stripped of double quotes. A piece without `=` holds none.
pub open spec fn field_of(piece: Seq<char>) -> Option<(Seq<char>, Seq<char>)> {
    let t = trim(piece);
    match first_index(t, '=') {
        Some(i) => Some((trim(t.subrange(0, i)), unquote(trim(t.subrange(i + 1, t.len() as int))))),
        None => None,
    }
}

/// The fields of the given pieces, in order.
pub open spec fn fields_of(pieces: Seq<Seq<char>>) -> Seq<(Seq<char>, Seq<char>)>
    decreases pieces.len(),
{
    if pieces.len() == 0 {
        Seq::empty()
    } else {
        let prev = fields_of(pieces.drop_last());
        match field_of(pieces.last()) {
            Some(f) => prev.push(f),
            None => prev,
        }
    }
}

/// The fields of a header, in order.
pub open spec fn header_fields(h: Seq<char>) -> Seq<(Seq<char>, Seq<char>)> {
    fields_of(split_pieces(h, ','))
}

/// The value of the last field with this name: a later field replaces an
/// earlier one.
pub open spec fn field_value(fields: Seq<(Seq<char>, Seq<char>)>, name: Seq<char>) -> Option<
    Seq<char>,
>
    decreases fields.len(),
{
    if fields.len() == 0 {
        None
    } else if fields.last().0 == name {
        Some(fields.last().1)
    } else {
        field_value(fields.drop_last(), name)
    }
}

/// What a signature header parses to.
pub open spec fn parsed_signature(h: Seq<char>) -> Result<
    SignatureHeaderView,
    SignatureHeaderError,
> {
    let f = header_fields(h);
    let key_id = field_value(f, "keyid"@);
    let algorithm = field_value(f, "algorithm"@);
    let signature = field_value(f, "signature"@);
    let headers = field_value(f, "headers"@);
    let created = field_value(f, "created"@);
    let expires = field_value(f, "expires"@);
    if key_id is None {
        Err(SignatureHeaderError::MissingKeyId)
    } else if algorithm is None {
        Err(SignatureHeaderError::MissingAlgorithm)
    } else if signature is None {
        Err(SignatureHeaderError::MissingSignature)
    } else if headers is None {
        Err(SignatureHeaderError::MissingHeaders)
    } else if created is None {
        Err(SignatureHeaderError::MissingCreated)
    } else if i64_value(created->Some_0) is None {
        Err(SignatureHeaderError::InvalidCreated)
    } else if expires is Some && i64_value(expires->Some_0) is None {
        Err(SignatureHeaderError::InvalidExpires)
    } else {
        Ok(
            SignatureHeaderView {
                key_id: key_id->Some_0,
                algorithm: algorithm->Some_0,
                signature: signature->Some_0,
                headers: words(headers->Some_0),
                created: i64_value(created->Some_0)->Some_0,
                expires: match expires {
                    Some(e) => i64_value(e),
                    None => None,
                },
                nonce: field_value(f, "nonce"@),
                tag: field_value(f, "tag"@),
            },
        )
    }
}

fn field_of_piece(piece: &Vec<char>) -> (r: Option<HeaderField>)
    ensures
        match r {
            Some(f) => field_of(piece@) == Some(f@),
            None => field_of(piece@) is None,
        },
{
    let t = trim_chars(piece, None);
    match find_char(&t, '=') {
        Some(i) => {
            assert(is_first_index(t@, '=', i as int));
            let name_part = slice_chars(&t, 0, i);
            let value_part = slice_chars(&t, i + 1, t.len());
            let name = trim_chars(&name_part, None);
            let value = trim_chars(&trim_chars(&value_part, None), Some('"'));
            Some(HeaderField { name, value })
        },
        None => None,
    }
}

/// The fields of a header, in order.
fn header_fields_of(h: &Vec<char>) -> (r: Vec<HeaderField>)
    ensures
        r@.map_values(|f: HeaderField| f@) == header_fields(h@),
{
    let mut fields: Vec<HeaderField> = Vec::new();
    let mut cur: Vec<char> = Vec::new();
    let mut i: usize = 0;
    proof {
        assert(h@.subrange(0, 0) =~= Seq::<char>::empty());
    }
    while i < h.len()
        invariant
            i <= h@.len(),
            split_pieces(h@.subrange(0, i as int), ',').len() >= 1,
            cur@ == split_pieces(h@.subrange(0, i as int), ',').last(),
            fields@.map_values(|f: HeaderField| f@) == fields_of(
                split_pieces(h@.subrange(0, i as int), ',').drop_last(),
            ),
        decreases h@.len() - i,
    {
        let c = h[i];
        let ghost pre = h@.subrange(0, i as int);
        let ghost next = h@.subrange(0, i + 1);
        let ghost prev = split_pieces(pre, ',');
        assert(next.drop_last() =~= pre);
        assert(next.last() == c);
        if c == ',' {
            let ghost old_fields = fields@;
            match field_of_piece(&cur) {
                Some(f) => {
                    fields.push(f);
                    assert(fields@.map_values(|f: HeaderField| f@) =~= old_fields.map_values(
                        |f: HeaderField| f@,
                    ).push(f@));
                },
                None => {},
            }
            assert(split_pieces(next, ',') == prev.push(Seq::empty()));
            assert(split_pieces(next, ',').drop_last() =~= prev);
            assert(prev =~= prev.drop_last().push(prev.last()));
            cur = Vec::new();
        } else {
            cur.push(c);
            assert(split_pieces(next, ',').drop_last() =~= prev.drop_last());
        }
        i = i + 1;
    }
    assert(h@.subrange(0, h@.len() as int) =~= h@);
    let ghost all = split_pieces(h@, ',');
    assert(all =~= all.drop_last().push(all.last()));
    let ghost old_fields = fields@;
    match field_of_piece(&cur) {
        Some(f) => {
            fields.push(f);
            assert(fields@.map_values(|f: HeaderField| f@) =~= old_fields.map_values(
                |f: HeaderField| f@,
            ).push(f@));
        },
        None => {},
    }
    fields
}

/// The value of the last field with this name.
fn field_value_of(fields: &Vec<HeaderField>, name: &str) -> (r: Option<Vec<char>>)
    ensures
        match r {
            Some(v) => field_value(fields@.map_values(|f: HeaderField| f@), name@) == Some(v@),
            None => field_value(fields@.map_values(|f: HeaderField| f@), name@) is None,
        },
{
    let key = chars_of(name);
    let ghost all = fields@.map_values(|f: HeaderField| f@);
    let mut found: Option<Vec<char>> = None;
    let mut i: usize = 0;
    while i < fields.len()
        invariant
            i <= fields@.len(),
            key@ == name@,
            all == fields@.map_values(|f: HeaderField| f@),
            match found {
                Some(v) => field_value(all.subrange(0, i as int), name@) == Some(v@),
                None => field_value(all.subrange(0, i as int), name@) is None,
            },
        decreases fields@.len() - i,
    {
        let ghost next = all.subrange(0, i + 1);
        assert(next.drop_last() =~= all.subrange(0, i as int));
        assert(next.last() == fields@[i as int]@);
        if chars_equal(&fields[i].name, &key) {
            found = Some(slice_chars(&fields[i].value, 0, fields[i].value.len()));
            assert(fields[i as int].value@.subrange(0, fields[i as int].value@.len() as int)
                =~= fields[i as int].value@);
        }
        i = i + 1;
    }
    assert(all.subrange(0, fields@.len() as int) =~= all);
    found
}

/// Parses the combined signature header: comma-separated `key=value` items
/// (values may be double-quoted; a later item replaces an earlier one of
/// the same name). `keyid`, `algorithm`, `signature`, `headers` (a
/// whitespace-separated list) and `created` (an integer) are required;
/// `expires` (an integer), `nonce` and `tag` are optional.
pub fn parse_signature(header: &str) -> (r: Result<TAPSignature, SignatureHeaderError>)
    ensures
        match r {
            Ok(s) => parsed_signature(header@) == Ok::<_, SignatureHeaderError>(s@),
            Err(e) => parsed_signature(header@) == Err::<SignatureHeaderView, _>(e),
        },
{
    let h = chars_of(header);
    let fields = header_fields_of(&h);
    let key_id = match field_value_of(&fields, "keyid") {
        Some(v) => v,
        None => return Err(SignatureHeaderError::MissingKeyId),
    };
    let algorithm = match field_value_of(&fields, "algorithm") {
        Some(v) => v,
        None => return Err(SignatureHeaderError::MissingAlgorithm),
    };
    let signature = match field_value_of(&fields, "signature") {
        Some(v) => v,
        None => return Err(SignatureHeaderError::MissingSignature),
    };
    let headers = match field_value_of(&fields, "headers") {
        Some(v) => v,
        None => return Err(SignatureHeaderError::MissingHeaders),
    };
    let created_text = match field_value_of(&fields, "created") {
        Some(v) => v,
        None => return Err(SignatureHeaderError::MissingCreated),
    };
    let created = match parse_i64(&created_text) {
        Some(v) => v,
        None => return Err(SignatureHeaderError::InvalidCreated),
    };
    let expires = match field_value_of(&fields, "expires") {
        Some(text) => match parse_i64(&text) {
            Some(v) => Some(v),
            None => return Err(SignatureHeaderError::InvalidExpires),
        },
        None => None,
    };
    let nonce = match field_value_of(&fields, "nonce") {
        Some(v) => Some(string_from_chars(v.as_slice())),
        None => None,
    };
    let tag = match field_value_of(&fields, "tag") {
        Some(v) => Some(string_from_chars(v.as_slice())),
        None => None,
    };
    let sig = TAPSignature {
        key_id: string_from_chars(key_id.as_slice()),
        algorithm: string_from_chars(algorithm.as_slice()),
        signature: string_from_chars(signature.as_slice()),
        headers: split_words(&headers),
        created,
        expires,
        nonce,
        tag,
    };
    proof {
        let f = header_fields(header@);
        assert(f == fields@.map_values(|f: HeaderField| f@));
    }
    Ok(sig)
}

#[derive(Debug, Clone, Copy, PartialEq, Eq, Structural)]
pub enum TapError {
    /// The signature header is absent or does not parse.
    Header(SignatureHeaderError),
    /// The signature's `expires` time has passed.
    SignatureExpired,
    /// The registry answered the identity lookup with a failure status.
    IdentityNotFound,
    /// The registry could not be reached.
    Network,
    /// The identity's algorithm differs from the one the header declares.
    AlgorithmMismatch,
    /// The signature does not verify under the identity's public key.
    InvalidSignature,
    /// The `Signature-Input` value does not have the signer's layout, or
    /// its times do not fit in 63 bits.
    MalformedInput,
    /// The algorithm is one this library cannot verify (only Ed25519 is
    /// verified).
    UnsupportedAlgorithm,
}

/// Whether a parsed signature has expired at `now` (seconds since the epoch).
pub open spec fn is_expired(s: SignatureHeaderView, now: int) -> bool {
    match s.expires {
        Some(e) => now > e,
        None => false,
    }
}

/// The signature parameters that a parsed header stands for: absent
/// `nonce` and `tag` are empty.
pub open spec fn header_params(s: SignatureHeaderView) -> ParamsView {
    ParamsView {
        created: s.created as nat,
        expires: match s.expires {
            Some(e) => e as nat,
            None => 0,
        },
        key_id: s.key_id,
        alg: SignatureAlgorithm::Ed25519,
        nonce: match s.nonce {
            Some(n) => n,
            None => Seq::empty(),
        },
        tag: match s.tag {
            Some(t) => t,
            None => Seq::empty(),
        },
    }
}

/// Whether the header's signature verifies under the identity's public key
/// (base64 text) over the signature base of the request: the algorithm is
/// Ed25519, `created` and `expires` are present and not negative, and the
/// `signature` value, in `Signature` header form, is accepted.
pub open spec fn header_signature_accepted(
    s: SignatureHeaderView,
    public_key_text: Seq<char>,
    c: crate::rfc9421::ComponentsView,
) -> bool {
    &&& s.algorithm == "ed25519"@
    &&& s.created >= 0
    &&& s.expires matches Some(e) && e >= 0
    &&& base64_decoded(public_key_text) matches Some(pk) && signature_accepted(
        c,
        header_params(s),
        pk,
        s.signature,
    )
}

/// The outcome of checking a parsed header against the resolved identity.
pub open spec fn identity_check(
    s: SignatureHeaderView,
    identity: TAPIdentity,
    c: crate::rfc9421::ComponentsView,
) -> Result<(), TapError> {
    if identity.algorithm@ != s.algorithm {
        Err(TapError::AlgorithmMismatch)
    } else if s.algorithm != "ed25519"@ {
        Err(TapError::UnsupportedAlgorithm)
    } else if header_signature_accepted(s, identity.public_key@, c) {
        Ok(())
    } else {
        Err(TapError::InvalidSignature)
    }
}

/// The header was signed, over these components and with the parameters it
/// carries, by the Ed25519 key whose public half the identity publishes.
pub open spec fn honestly_signed(
    s: SignatureHeaderView,
    identity: TAPIdentity,
    c: crate::rfc9421::ComponentsView,
) -> bool {
    &&& identity.algorithm@ == s.algorithm
    &&& s.algorithm == "ed25519"@
    &&& s.created >= 0
    &&& s.expires matches Some(e) && e >= 0
    &&& exists|secret: Seq<u8>|
        #![trigger crate::crypto::ed25519_public_of(secret)]
        secret.len() == 32 && identity.public_key@ == crate::crypto::base64_of(
            crate::crypto::ed25519_public_of(secret),
        ) && s.signature == crate::rfc9421::signature_value(
            crate::crypto::ed25519_signature_of(
                secret,
                crate::rfc9421::signed_message(c, header_params(s)),
            ),
        )
}

/// The identity for `key_id`: the cached one, else what the registry
/// answered.
pub open spec fn resolved_identity(
    cache: Map<Seq<char>, TAPIdentity>,
    key_id: Seq<char>,
    fetched: IdentityFetch,
) -> Result<TAPIdentity, TapError> {
    if cache.contains_key(key_id) {
        Ok(cache[key_id])
    } else {
        match fetched {
            IdentityFetch::Found(i) => Ok(i),
            IdentityFetch::Failed => Err(TapError::IdentityNotFound),
            IdentityFetch::Unreachable => Err(TapError::Network),
        }
    }
}

/// The identity cache: identities by key identifier. An entry is never
/// evicted; storing under a key already present replaces its identity.
pub struct IdentityCache {
    entries: StringTable<TAPIdentity>,
}

impl View for IdentityCache {
    type V = Map<Seq<char>, TAPIdentity>;

    closed spec fn view(&self) -> Map<Seq<char>, TAPIdentity> {
        self.entries@
    }
}

impl IdentityCache {
    pub closed spec fn wf(&self) -> bool {
        self.entries.wf()
    }

    pub fn new() -> (r: IdentityCache)
        ensures
            r.wf(),
            r@ == Map::<Seq<char>, TAPIdentity>::empty(),
    {
        IdentityCache { entries: StringTable::new() }
    }

    /// The cached identity for `key_id`, if any.
    pub fn get(&self, key_id: &str) -> (r: Option<TAPIdentity>)
        requires
            self.wf(),
        ensures
            match r {
                Some(i) => self@.contains_key(key_id@) && self@[key_id@] == i,
                None => !self@.contains_key(key_id@),
            },
    {
        match self.entries.get(key_id) {
            Some(i) => Some(i.cloned()),
            None => None,
        }
    }

    /// Stores `identity` under `key_id`; a later store wins.
    pub fn insert(&mut self, key_id: &str, identity: TAPIdentity)
        requires
            old(self).wf(),
        ensures
            final(self).wf(),
            final(self)@ == old(self)@.insert(key_id@, identity),
    {
        self.entries.set(key_id, identity);
    }
}

/// How the registry answered an identity lookup.
pub enum IdentityFetch {
    /// A success status and the identity in the body.
    Found(TAPIdentity),
    /// A failure status.
    Failed,
    /// The registry could not be reached, or the body was not an identity.
    Unreachable,
}

/// Verifies agent signatures against identities held by a registry at
/// `registry_url`.
pub struct TAPVerifier {
    pub registry_url: String,
}

impl TAPVerifier {
    pub fn new(registry_url: String) -> (r: TAPVerifier)
        ensures
            r.registry_url == registry_url,
    {
        TAPVerifier { registry_url }
    }

    /// The registry URL that serves the identity for `key_id`:
    /// `{registry_url}/agents/key/{key_id}`.
    pub fn identity_url(&self, key_id: &str) -> (r: String)
        ensures
            r@ == self.registry_url@ + "/agents/key/"@ + key_id@,
    {
        let mut out: Vec<char> = Vec::new();
        push_str(&mut out, self.registry_url.as_str());
        push_str(&mut out, "/agents/key/");
        push_str(&mut out, key_id);
        string_from_chars(out.as_slice())
    }

    /// The first step of verification: parse the header and reject an
    /// expired signature, whatever its signature bytes.
    pub fn begin_verification(&self, signature_header: &str, now: i64) -> (r: Result<
        TAPSignature,
        TapError,
    >)
        ensures
            match parsed_signature(signature_header@) {
                Err(e) => r == Err::<TAPSignature, _>(TapError::Header(e)),
                Ok(v) => if is_expired(v, now as int) {
                    r == Err::<TAPSignature, _>(TapError::SignatureExpired)
                } else {
                    r matches Ok(s) && s@ == v
                },
            },
    {
        let signature = match parse_signature(signature_header) {
            Ok(s) => s,
            Err(e) => return Err(TapError::Header(e)),
        };
        match signature.expires {
            Some(expires) => {
                if now > expires {
                    return Err(TapError::SignatureExpired);
                }
            },
            None => {},
        }
        Ok(signature)
    }

    /// Resolves `key_id` from the cache, or from the registry's answer on a
    /// miss, which is then cached.
    pub fn resolve_identity(
        cache: &mut IdentityCache,
        key_id: &str,
        fetched: IdentityFetch,
    ) -> (r: Result<TAPIdentity, TapError>)
        requires
            old(cache).wf(),
        ensures
            final(cache).wf(),
            r == resolved_identity(old(cache)@, key_id@, fetched),
            final(cache)@ == match r {
                Ok(i) => old(cache)@.insert(key_id@, i),
                Err(_) => old(cache)@,
            },
    {
        match cache.get(key_id) {
            Some(identity) => Ok(identity),
            None => match fetched {
                IdentityFetch::Found(identity) => {
                    cache.insert(key_id, identity.cloned());
                    Ok(identity)
                },
                IdentityFetch::Failed => Err(TapError::IdentityNotFound),
                IdentityFetch::Unreachable => Err(TapError::Network),
            },
        }
    }

    /// The second step of verification, once the identity is known: the
    /// algorithms must agree, and the signature must verify under the
    /// identity's public key over the signature base of the request.
    pub fn finish_verification(
        &self,
        signature: &TAPSignature,
        identity: &TAPIdentity,
        components: &SignatureComponents,
    ) -> (r: Result<(), TapError>)
        ensures
            r == identity_check(signature@, *identity, components@),
            honestly_signed(signature@, *identity, components@) ==> r is Ok,
    {
        if identity.algorithm != signature.algorithm {
            return Err(TapError::AlgorithmMismatch);
        }
        let ed = "ed25519".to_owned();
        if signature.algorithm != ed {
            return Err(TapError::UnsupportedAlgorithm);
        }
        if signature.created < 0 {
            return Err(TapError::InvalidSignature);
        }
        let expires = match signature.expires {
            Some(e) => e,
            None => return Err(TapError::InvalidSignature),
        };
        if expires < 0 {
            return Err(TapError::InvalidSignature);
        }
        let public_key = match base64_decode(identity.public_key.as_str()) {
            Some(pk) => pk,
            None => {
                proof {
                    if exists|secret: Seq<u8>|
                        #![trigger crate::crypto::ed25519_public_of(secret)]
                        identity.public_key@ == crate::crypto::base64_of(
                            crate::crypto::ed25519_public_of(secret),
                        ) {
                        let secret = choose|secret: Seq<u8>|
                            #![trigger crate::crypto::ed25519_public_of(secret)]
                            identity.public_key@ == crate::crypto::base64_of(
                                crate::crypto::ed25519_public_of(secret),
                            );
                        assert(identity.public_key@ == crate::crypto::base64_of(
                            crate::crypto::ed25519_public_of(secret),
                        ));
                    }
                }
                return Err(TapError::InvalidSignature);
            },
        };
        let params = SignatureParams {
            created: signature.created as u64,
            expires: expires as u64,
            key_id: signature.key_id.clone(),
            alg: SignatureAlgorithm::Ed25519,
            nonce: match &signature.nonce {
                Some(n) => n.clone(),
                None => String::new(),
            },
            tag: match &signature.tag {
                Some(t) => t.clone(),
                None => String::new(),
            },
        };
        assert(params@ == header_params(signature@));
        assert(public_key.deep_view() =~= public_key@);
        if RFC9421Signature::verify_ed25519(
            components,
            &params,
            public_key.as_slice(),
            signature.signature.as_str(),
        ) {
            Ok(())
        } else {
            Err(TapError::InvalidSignature)
        }
    }
}

} // verus!
