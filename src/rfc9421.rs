//! HTTP message signatures: the canonical signature base over `@authority`
//! and `@path`, the `Signature-Input` and `Signature` header values, and
//! Ed25519 signing and verification over the base.
use vstd::prelude::*;
use vstd::utf8::encode_utf8;

use crate::crypto::{
    base64_decode, base64_decoded, base64_encode, base64_of, ed25519_accepts, ed25519_public,
    ed25519_public_of, ed25519_sign, ed25519_signature_of, ed25519_verify, hex_encode, hex_text,
    random_bytes_16, random_secret_key,
};
use crate::text::{chars_of, decimal, push_decimal, push_str, string_from_chars};

verus! {

broadcast use vstd::array::group_array_axioms;

#[derive(Debug, Clone, Copy, PartialEq, Eq, Structural)]
pub enum SignatureAlgorithm {
    Ed25519,
    RsaPssSha256,
}

impl SignatureAlgorithm {
    /// The algorithm's name on the wire.
    pub open spec fn name(self) -> Seq<char> {
        match self {
            SignatureAlgorithm::Ed25519 => "ed25519"@,
            SignatureAlgorithm::RsaPssSha256 => "rsa-pss-sha256"@,
        }
    }

    pub fn as_str(&self) -> (r: &'static str)
        ensures
            r@ == self.name(),
    {
        match self {
            SignatureAlgorithm::Ed25519 => "ed25519",
            SignatureAlgorithm::RsaPssSha256 => "rsa-pss-sha256",
        }
    }
}

/// Different algorithms have different names.
pub proof fn lemma_algorithm_names_differ(a: SignatureAlgorithm, b: SignatureAlgorithm)
    requires
        a != b,
    ensures
        a.name() != b.name(),
{
    reveal_strlit("ed25519");
    reveal_strlit("rsa-pss-sha256");
    assert(a.name().len() != b.name().len());
}

#[derive(Debug, Clone)]
pub struct SignatureParams {
    pub created: u64,
    pub expires: u64,
    pub key_id: String,
    pub alg: SignatureAlgorithm,
    pub nonce: String,
    pub tag: String,
}

#[derive(Debug, Clone)]
pub struct SignatureComponents {
    pub authority: String,
    pub path: String,
}

/// Signature parameters as values.
pub ghost struct ParamsView {
    pub created: nat,
    pub expires: nat,
    pub key_id: Seq<char>,
    pub alg: SignatureAlgorithm,
    pub nonce: Seq<char>,
    pub tag: Seq<char>,
}

/// The covered request components as values.
pub ghost struct ComponentsView {
    pub authority: Seq<char>,
    pub path: Seq<char>,
}

impl View for SignatureParams {
    type V = ParamsView;

    open spec fn view(&self) -> ParamsView {
        ParamsView {
            created: self.created as nat,
            expires: self.expires as nat,
            key_id: self.key_id@,
            alg: self.alg,
            nonce: self.nonce@,
            tag: self.tag@,
        }
    }
}

impl View for SignatureComponents {
    type V = ComponentsView;

    open spec fn view(&self) -> ComponentsView {
        ComponentsView { authority: self.authority@, path: self.path@ }
    }
}

#[derive(Debug, Clone)]
pub struct SignatureResult {
    pub signature_input: String,
    pub signature: String,
}

/// An Ed25519 key pair, kept as its 32-byte secret and public keys.
#[derive(Debug, Clone)]
pub struct Ed25519Keypair {
    pub secret: [u8; 32],
    pub public: [u8; 32],
}

impl Ed25519Keypair {
    /// The public key is the one derived from the secret key.
    pub open spec fn wf(&self) -> bool {
        self.public@ == ed25519_public_of(self.secret@)
    }

    pub fn from_secret(secret: [u8; 32]) -> (r: Ed25519Keypair)
        ensures
            r.secret@ == secret@,
            r.wf(),
    {
        let public = ed25519_public(&secret);
        Ed25519Keypair { secret, public }
    }
}

/// The parameter list that follows the covered components:
/// `("@authority" "@path"); created=..; expires=..; keyid=".."; alg=".."; nonce=".."; tag=".."`.
pub open spec fn params_list(p: ParamsView) -> Seq<char> {
    "(\"@authority\" \"@path\"); created="@ + decimal(p.created as nat) + "; expires="@ + decimal(
        p.expires as nat,
    ) + "; keyid=\""@ + p.key_id + "\"; alg=\""@ + p.alg.name() + "\"; nonce=\""@ + p.nonce
        + "\"; tag=\""@ + p.tag + "\""@
}

/// The signature base: three lines joined by newlines.
pub open spec fn signature_base(c: ComponentsView, p: ParamsView) -> Seq<char> {
    "\"@authority\": "@ + c.authority + "\n\"@path\": "@ + c.path + "\n\"@signature-params\": "@
        + params_list(p)
}

/// The bytes that are signed: the UTF-8 encoding of the signature base.
pub open spec fn signed_message(c: ComponentsView, p: ParamsView) -> Seq<u8> {
    encode_utf8(signature_base(c, p))
}

/// The `Signature-Input` header value.
pub open spec fn signature_input_value(p: ParamsView) -> Seq<char> {
    "sig2="@ + params_list(p)
}

/// The `Signature` header value that carries the given signature bytes.
pub open spec fn signature_value(sig: Seq<u8>) -> Seq<char> {
    "sig2=:"@ + base64_of(sig) + ":"@
}

/// The base64 text inside a `Signature` header value `sig2=:<text>:`.
pub open spec fn signature_payload(v: Seq<char>) -> Option<Seq<char>> {
    if v.len() >= 7 && v.subrange(0, 6) == "sig2=:"@ && v.last() == ':' {
        Some(v.subrange(6, v.len() - 1))
    } else {
        None
    }
}

/// Whether a `Signature` header value carries an Ed25519 signature over the
/// signature base that the public key accepts.
pub open spec fn signature_accepted(
    c: ComponentsView,
    p: ParamsView,
    public: Seq<u8>,
    value: Seq<char>,
) -> bool {
    match signature_payload(value) {
        Some(text) => match base64_decoded(text) {
            Some(sig) => ed25519_accepts(public, signed_message(c, p), sig),
            None => false,
        },
        None => false,
    }
}

proof fn lemma_payload_of_value(b: Seq<char>)
    ensures
        signature_payload("sig2=:"@ + b + ":"@) == Some(b),
{
    reveal_strlit("sig2=:");
    reveal_strlit(":");
    let v = "sig2=:"@ + b + ":"@;
    assert(v.subrange(0, 6) =~= "sig2=:"@);
    assert(v.subrange(6, v.len() - 1) =~= b);
}

/// Changing one field of the components or the parameters, and nothing
/// else, changes the signature base.
pub proof fn lemma_base_changes_with_one_field(
    c: ComponentsView,
    p: ParamsView,
    c2: ComponentsView,
    p2: ParamsView,
)
    requires
        one_field_differs(c, p, c2, p2),
    ensures
        signature_base(c, p) != signature_base(c2, p2),
{
    let b1 = signature_base(c, p);
    let b2 = signature_base(c2, p2);
    if c.authority != c2.authority {
        let pre = "\"@authority\": "@;
        let post = "\n\"@path\": "@ + c.path + "\n\"@signature-params\": "@ + params_list(p);
        assert(b1 =~= pre + c.authority + post);
        assert(b2 =~= pre + c2.authority + post);
        if b1 == b2 {
            lemma_cancel(pre, c.authority, c2.authority, post);
        }
    } else if c.path != c2.path {
        let pre = "\"@authority\": "@ + c.authority + "\n\"@path\": "@;
        let post = "\n\"@signature-params\": "@ + params_list(p);
        assert(b1 =~= pre + c.path + post);
        assert(b2 =~= pre + c2.path + post);
        if b1 == b2 {
            lemma_cancel(pre, c.path, c2.path, post);
        }
    } else {
        let pre = "\"@authority\": "@ + c.authority + "\n\"@path\": "@ + c.path
            + "\n\"@signature-params\": "@;
        assert(b1 =~= pre + params_list(p));
        assert(b2 =~= pre + params_list(p2));
        lemma_params_list_changes(p, p2);
        if b1 == b2 {
            lemma_cancel_prefix(pre, params_list(p), params_list(p2));
        }
    }
}

/// The two requests differ in exactly one field.
pub open spec fn one_field_differs(
    c: ComponentsView,
    p: ParamsView,
    c2: ComponentsView,
    p2: ParamsView,
) -> bool {
    let same_c = c.authority == c2.authority && c.path == c2.path;
    let same_p = p.created == p2.created && p.expires == p2.expires && p.key_id == p2.key_id
        && p.alg == p2.alg && p.nonce == p2.nonce && p.tag == p2.tag;
    ||| (c.authority != c2.authority && c.path == c2.path && same_p)
    ||| (c.authority == c2.authority && c.path != c2.path && same_p)
    ||| (same_c && p.created != p2.created && p.expires == p2.expires && p.key_id == p2.key_id
        && p.alg == p2.alg && p.nonce == p2.nonce && p.tag == p2.tag)
    ||| (same_c && p.created == p2.created && p.expires != p2.expires && p.key_id == p2.key_id
        && p.alg == p2.alg && p.nonce == p2.nonce && p.tag == p2.tag)
    ||| (same_c && p.created == p2.created && p.expires == p2.expires && p.key_id != p2.key_id
        && p.alg == p2.alg && p.nonce == p2.nonce && p.tag == p2.tag)
    ||| (same_c && p.created == p2.created && p.expires == p2.expires && p.key_id == p2.key_id
        && p.alg != p2.alg && p.nonce == p2.nonce && p.tag == p2.tag)
    ||| (same_c && p.created == p2.created && p.expires == p2.expires && p.key_id == p2.key_id
        && p.alg == p2.alg && p.nonce != p2.nonce && p.tag == p2.tag)
    ||| (same_c && p.created == p2.created && p.expires == p2.expires && p.key_id == p2.key_id
        && p.alg == p2.alg && p.nonce == p2.nonce && p.tag != p2.tag)
}

proof fn lemma_cancel(pre: Seq<char>, x: Seq<char>, y: Seq<char>, post: Seq<char>)
    requires
        pre + x + post == pre + y + post,
    ensures
        x == y,
{
    let s = pre + x + post;
    assert(x =~= s.subrange(pre.len() as int, (pre.len() + x.len()) as int));
    assert(y =~= (pre + y + post).subrange(pre.len() as int, (pre.len() + y.len()) as int));
}

proof fn lemma_cancel_prefix(pre: Seq<char>, x: Seq<char>, y: Seq<char>)
    requires
        pre + x == pre + y,
    ensures
        x == y,
{
    assert(x =~= (pre + x).subrange(pre.len() as int, (pre.len() + x.len()) as int));
    assert(y =~= (pre + y).subrange(pre.len() as int, (pre.len() + y.len()) as int));
}

/// The parameter lists of two parameter sets that differ in exactly one
/// field are different.
proof fn lemma_params_list_changes(p: ParamsView, p2: ParamsView)
    requires
        p.created != p2.created || p.expires != p2.expires || p.key_id != p2.key_id || p.alg
            != p2.alg || p.nonce != p2.nonce || p.tag != p2.tag,
        p.created == p2.created || (p.expires == p2.expires && p.key_id == p2.key_id && p.alg
            == p2.alg && p.nonce == p2.nonce && p.tag == p2.tag),
        p.expires == p2.expires || (p.created == p2.created && p.key_id == p2.key_id && p.alg
            == p2.alg && p.nonce == p2.nonce && p.tag == p2.tag),
        p.key_id == p2.key_id || (p.created == p2.created && p.expires == p2.expires && p.alg
            == p2.alg && p.nonce == p2.nonce && p.tag == p2.tag),
        p.alg == p2.alg || (p.created == p2.created && p.expires == p2.expires && p.key_id
            == p2.key_id && p.nonce == p2.nonce && p.tag == p2.tag),
        p.nonce == p2.nonce || (p.created == p2.created && p.expires == p2.expires && p.key_id
            == p2.key_id && p.alg == p2.alg && p.tag == p2.tag),
    ensures
        params_list(p) != params_list(p2),
{
    if p.created != p2.created {
        lemma_created_changes(p, p2);
    } else if p.expires != p2.expires {
        lemma_expires_changes(p, p2);
    } else if p.key_id != p2.key_id || p.alg != p2.alg {
        lemma_key_or_alg_changes(p, p2);
    } else {
        lemma_nonce_or_tag_changes(p, p2);
    }
}

proof fn lemma_created_changes(p: ParamsView, p2: ParamsView)
    requires
        p.created != p2.created,
        p.expires == p2.expires && p.key_id == p2.key_id && p.alg == p2.alg && p.nonce
            == p2.nonce && p.tag == p2.tag,
    ensures
        params_list(p) != params_list(p2),
{
    let a = "(\"@authority\" \"@path\"); created="@;
    let rest = "; expires="@ + decimal(p.expires as nat) + "; keyid=\""@ + p.key_id
        + "\"; alg=\""@ + p.alg.name() + "\"; nonce=\""@ + p.nonce + "\"; tag=\""@ + p.tag
        + "\""@;
    let d1 = decimal(p.created as nat);
    let d2 = decimal(p2.created as nat);
    assert(params_list(p) =~= a + d1 + rest);
    assert(params_list(p2) =~= a + d2 + rest);
    if params_list(p) == params_list(p2) {
        lemma_cancel(a, d1, d2, rest);
        crate::text::lemma_decimal_injective(p.created as nat, p2.created as nat);
    }
}

proof fn lemma_expires_changes(p: ParamsView, p2: ParamsView)
    requires
        p.expires != p2.expires,
        p.created == p2.created && p.key_id == p2.key_id && p.alg == p2.alg && p.nonce
            == p2.nonce && p.tag == p2.tag,
    ensures
        params_list(p) != params_list(p2),
{
    let a = "(\"@authority\" \"@path\"); created="@ + decimal(p.created as nat) + "; expires="@;
    let rest = "; keyid=\""@ + p.key_id + "\"; alg=\""@ + p.alg.name() + "\"; nonce=\""@
        + p.nonce + "\"; tag=\""@ + p.tag + "\""@;
    let d1 = decimal(p.expires as nat);
    let d2 = decimal(p2.expires as nat);
    assert(params_list(p) =~= a + d1 + rest);
    assert(params_list(p2) =~= a + d2 + rest);
    if params_list(p) == params_list(p2) {
        lemma_cancel(a, d1, d2, rest);
        crate::text::lemma_decimal_injective(p.expires as nat, p2.expires as nat);
    }
}

/// The parameter list from the key identifier on.
spec fn params_tail(p: ParamsView) -> Seq<char> {
    p.key_id + "\"; alg=\""@ + p.alg.name() + "\"; nonce=\""@ + p.nonce + "\"; tag=\""@
        + p.tag + "\""@
}

proof fn lemma_params_list_tail(p: ParamsView)
    ensures
        params_list(p) == "(\"@authority\" \"@path\"); created="@ + decimal(p.created as nat)
            + "; expires="@ + decimal(p.expires as nat) + "; keyid=\""@ + params_tail(p),
{
    assert(params_list(p) =~= "(\"@authority\" \"@path\"); created="@ + decimal(
        p.created as nat,
    ) + "; expires="@ + decimal(p.expires as nat) + "; keyid=\""@ + params_tail(p));
}

proof fn lemma_key_or_alg_changes(p: ParamsView, p2: ParamsView)
    requires
        p.created == p2.created && p.expires == p2.expires,
        p.nonce == p2.nonce && p.tag == p2.tag,
        (p.key_id != p2.key_id && p.alg == p2.alg) || (p.key_id == p2.key_id && p.alg
            != p2.alg),
    ensures
        params_list(p) != params_list(p2),
{
    lemma_params_list_tail(p);
    lemma_params_list_tail(p2);
    let head = "(\"@authority\" \"@path\"); created="@ + decimal(p.created as nat)
        + "; expires="@ + decimal(p.expires as nat) + "; keyid=\""@;
    if params_list(p) == params_list(p2) {
        lemma_cancel_prefix(head, params_tail(p), params_tail(p2));
        let rest = "\"; nonce=\""@ + p.nonce + "\"; tag=\""@ + p.tag + "\""@;
        if p.key_id != p2.key_id {
            let post = "\"; alg=\""@ + p.alg.name() + rest;
            assert(params_tail(p) =~= Seq::empty() + p.key_id + post);
            assert(params_tail(p2) =~= Seq::empty() + p2.key_id + post);
            lemma_cancel(Seq::empty(), p.key_id, p2.key_id, post);
        } else {
            let pre = p.key_id + "\"; alg=\""@;
            assert(params_tail(p) =~= pre + p.alg.name() + rest);
            assert(params_tail(p2) =~= pre + p2.alg.name() + rest);
            lemma_cancel(pre, p.alg.name(), p2.alg.name(), rest);
            lemma_algorithm_names_differ(p.alg, p2.alg);
        }
    }
}

proof fn lemma_nonce_or_tag_changes(p: ParamsView, p2: ParamsView)
    requires
        p.created == p2.created && p.expires == p2.expires,
        p.key_id == p2.key_id && p.alg == p2.alg,
        (p.nonce != p2.nonce && p.tag == p2.tag) || (p.nonce == p2.nonce && p.tag
            != p2.tag),
    ensures
        params_list(p) != params_list(p2),
{
    lemma_params_list_tail(p);
    lemma_params_list_tail(p2);
    let head = "(\"@authority\" \"@path\"); created="@ + decimal(p.created as nat)
        + "; expires="@ + decimal(p.expires as nat) + "; keyid=\""@;
    if params_list(p) == params_list(p2) {
        lemma_cancel_prefix(head, params_tail(p), params_tail(p2));
        let pre = p.key_id + "\"; alg=\""@ + p.alg.name() + "\"; nonce=\""@;
        if p.nonce != p2.nonce {
            let post = "\"; tag=\""@ + p.tag + "\""@;
            assert(params_tail(p) =~= pre + p.nonce + post);
            assert(params_tail(p2) =~= pre + p2.nonce + post);
            lemma_cancel(pre, p.nonce, p2.nonce, post);
        } else {
            let pre2 = pre + p.nonce + "\"; tag=\""@;
            assert(params_tail(p) =~= pre2 + p.tag + "\""@);
            assert(params_tail(p2) =~= pre2 + p2.tag + "\""@);
            lemma_cancel(pre2, p.tag, p2.tag, "\""@);
        }
    }
}

pub struct RFC9421Signature;

impl RFC9421Signature {
    fn push_params_list(out: &mut Vec<char>, params: &SignatureParams)
        ensures
            final(out)@ == old(out)@ + params_list(params@),
    {
        push_str(out, "(\"@authority\" \"@path\"); created=");
        push_decimal(out, params.created);
        push_str(out, "; expires=");
        push_decimal(out, params.expires);
        push_str(out, "; keyid=\"");
        push_str(out, params.key_id.as_str());
        push_str(out, "\"; alg=\"");
        push_str(out, params.alg.as_str());
        push_str(out, "\"; nonce=\"");
        push_str(out, params.nonce.as_str());
        push_str(out, "\"; tag=\"");
        push_str(out, params.tag.as_str());
        push_str(out, "\"");
        assert(final(out)@ =~= old(out)@ + params_list(params@));
    }

    pub fn create_signature_base(
        components: &SignatureComponents,
        params: &SignatureParams,
    ) -> (r: String)
        ensures
            r@ == signature_base(components@, params@),
    {
        let mut out: Vec<char> = Vec::new();
        push_str(&mut out, "\"@authority\": ");
        push_str(&mut out, components.authority.as_str());
        push_str(&mut out, "\n\"@path\": ");
        push_str(&mut out, components.path.as_str());
        push_str(&mut out, "\n\"@signature-params\": ");
        Self::push_params_list(&mut out, params);
        assert(out@ =~= signature_base(components@, params@));
        string_from_chars(out.as_slice())
    }

    /// The `Signature-Input` header value for these parameters.
    pub fn create_signature_input(params: &SignatureParams) -> (r: String)
        ensures
            r@ == signature_input_value(params@),
    {
        let mut out: Vec<char> = Vec::new();
        push_str(&mut out, "sig2=");
        Self::push_params_list(&mut out, params);
        string_from_chars(out.as_slice())
    }

    pub fn sign_ed25519(
        components: &SignatureComponents,
        params: &SignatureParams,
        keypair: &Ed25519Keypair,
    ) -> (r: SignatureResult)
        ensures
            r.signature_input@ == signature_input_value(params@),
            r.signature@ == signature_value(
                ed25519_signature_of(keypair.secret@, signed_message(components@, params@)),
            ),
    {
        let signature_base = Self::create_signature_base(components, params);
        let message = signature_base.as_str().as_bytes();
        let signature = ed25519_sign(&keypair.secret, message);
        let signature_b64 = base64_encode(signature.as_slice());
        let signature_input = Self::create_signature_input(params);
        let mut out: Vec<char> = Vec::new();
        push_str(&mut out, "sig2=:");
        push_str(&mut out, signature_b64.as_str());
        push_str(&mut out, ":");
        SignatureResult { signature_input, signature: string_from_chars(out.as_slice()) }
    }

    /// Checks a `Signature` header value against the signature base of these
    /// components and parameters, under an Ed25519 public key.
    pub fn verify_ed25519(
        components: &SignatureComponents,
        params: &SignatureParams,
        public_key: &[u8],
        signature: &str,
    ) -> (r: bool)
        ensures
            r == signature_accepted(components@, params@, public_key@, signature@),
            forall|secret: Seq<u8>|
                #![trigger ed25519_signature_of(secret, signed_message(components@, params@))]
                secret.len() == 32 && public_key@ == ed25519_public_of(secret) && signature@
                    == signature_value(
                    ed25519_signature_of(secret, signed_message(components@, params@)),
                ) ==> r,
    {
        let msg_spec = Ghost(signed_message(components@, params@));
        proof {
            assert forall|secret: Seq<u8>|
                #![trigger ed25519_signature_of(secret, msg_spec@)]
                signature@ == signature_value(ed25519_signature_of(secret, msg_spec@)) implies
                signature_payload(signature@) == Some(
                    base64_of(ed25519_signature_of(secret, msg_spec@)),
                ) by {
                lemma_payload_of_value(base64_of(ed25519_signature_of(secret, msg_spec@)));
            }
        }
        let text = match Self::signature_payload_text(signature) {
            Some(t) => t,
            None => return false,
        };
        let sig = match base64_decode(text.as_str()) {
            Some(b) => b,
            None => return false,
        };
        let signature_base = Self::create_signature_base(components, params);
        let message = signature_base.as_str().as_bytes();
        assert(sig.deep_view() =~= sig@);
        ed25519_verify(public_key, message, sig.as_slice())
    }

    /// The base64 text of a `Signature` header value `sig2=:<text>:`.
    fn signature_payload_text(value: &str) -> (r: Option<String>)
        ensures
            r matches Some(t) ==> signature_payload(value@) == Some(t@),
            r is None ==> signature_payload(value@) is None,
    {
        let v = chars_of(value);
        let prefix = chars_of("sig2=:");
        proof {
            reveal_strlit("sig2=:");
        }
        let n = v.len();
        if n < 7 || v[n - 1] != ':' {
            return None;
        }
        let mut i: usize = 0;
        while i < 6
            invariant
                n == v@.len(),
                v@ == value@,
                n >= 7,
                v@.last() == ':',
                prefix@ == "sig2=:"@,
                prefix@.len() == 6,
                0 <= i <= 6,
                forall|j: int| 0 <= j < i ==> v@[j] == prefix@[j],
            decreases 6 - i,
        {
            if v[i] != prefix[i] {
                assert(v@.subrange(0, 6)[i as int] != "sig2=:"@[i as int]);
                return None;
            }
            i = i + 1;
        }
        assert(v@.subrange(0, 6) =~= "sig2=:"@);
        let mut out: Vec<char> = Vec::new();
        let mut k: usize = 6;
        while k < n - 1
            invariant
                n == v@.len(),
                v@ == value@,
                n >= 7,
                v@.subrange(0, 6) == "sig2=:"@,
                v@.last() == ':',
                6 <= k <= n - 1,
                out@ =~= v@.subrange(6, k as int),
            decreases n - 1 - k,
        {
            out.push(v[k]);
            k = k + 1;
        }
        Some(string_from_chars(out.as_slice()))
    }

    /// A random nonce: sixteen random bytes in lowercase hexadecimal.
    pub fn generate_nonce() -> (r: String)
        ensures
            exists|b: Seq<u8>| b.len() == 16 && r@ == hex_text(b),
    {
        let bytes = random_bytes_16();
        hex_encode(bytes.as_slice())
    }

    pub fn generate_ed25519_keypair() -> (r: Ed25519Keypair)
        ensures
            r.wf(),
    {
        Ed25519Keypair::from_secret(random_secret_key())
    }

    /// Relies on std's `SystemTime::now` and `duration_since`: seconds since
    /// the Unix epoch, or nothing when the clock reads earlier than it.
    #[verifier::external_body]
    pub fn get_current_timestamp() -> Option<u64> {
        std::time::SystemTime::now().duration_since(std::time::UNIX_EPOCH).ok().map(|d| d.as_secs())
    }
}

} // verus!
