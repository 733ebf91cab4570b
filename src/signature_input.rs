//! Reading a `Signature-Input` header value back into signature
//! parameters, and verifying a request that carries the
//! `Signature-Input` / `Signature` header pair.
use vstd::prelude::*;

use crate::crypto::{ed25519_public_of, ed25519_signature_of};
use crate::rfc9421::{
    ComponentsView, ParamsView, RFC9421Signature, SignatureAlgorithm, SignatureComponents,
    SignatureParams, lemma_algorithm_names_differ, signature_accepted, signature_input_value,
    signature_value, signed_message,
};
use crate::text::{
    all_digits, chars_equal, chars_of, decimal, digits_value, lemma_canonical_digits,
    lemma_decimal_digits, lemma_digits_value_grows, slice_chars, string_from_chars,
};

verus! {

/// No character of `s` is a double quote.
pub open spec fn quote_free(s: Seq<char>) -> bool {
    forall|i: int| 0 <= i < s.len() ==> s[i] != '"'
}

/// Parameters that a `Signature-Input` value can carry: text fields without
/// double quotes, times that fit in 64 bits.
pub open spec fn quotable(p: ParamsView) -> bool {
    &&& quote_free(p.key_id)
    &&& quote_free(p.nonce)
    &&& quote_free(p.tag)
    &&& p.created <= u64::MAX
    &&& p.expires <= u64::MAX
}

/// `lit` stands in `s` at `pos`.
pub open spec fn lit_at(s: Seq<char>, pos: int, lit: Seq<char>) -> bool {
    0 <= pos && pos + lit.len() <= s.len() && s.subrange(pos, pos + lit.len()) == lit
}

pub open spec fn is_digit(c: char) -> bool {
    '0' <= c && c <= '9'
}

/// The end of the run of digits that starts at `pos`.
pub open spec fn digit_run(s: Seq<char>, pos: int) -> int
    decreases s.len() - pos,
{
    if 0 <= pos < s.len() && is_digit(s[pos]) {
        digit_run(s, pos + 1)
    } else {
        pos
    }
}

/// The position of the first double quote at or after `pos`.
pub open spec fn quote_from(s: Seq<char>, pos: int) -> Option<int>
    decreases s.len() - pos,
{
    if pos < 0 || pos >= s.len() {
        None
    } else if s[pos] == '"' {
        Some(pos)
    } else {
        quote_from(s, pos + 1)
    }
}

/// The number that a digit string writes, when it is a decimal notation
/// (no leading zero) of a number that fits in 64 bits.
pub open spec fn decimal_value(run: Seq<char>) -> Option<nat> {
    if run.len() >= 1 && all_digits(run) && (run.len() > 1 ==> run[0] != '0') && digits_value(
        run,
    ) <= u64::MAX {
        Some(digits_value(run) as nat)
    } else {
        None
    }
}

/// The algorithm with this name.
pub open spec fn algorithm_named(name: Seq<char>) -> Option<SignatureAlgorithm> {
    if name == SignatureAlgorithm::Ed25519.name() {
        Some(SignatureAlgorithm::Ed25519)
    } else if name == SignatureAlgorithm::RsaPssSha256.name() {
        Some(SignatureAlgorithm::RsaPssSha256)
    } else {
        None
    }
}

/// What a `Signature-Input` value reads as: the parameters, when the value
/// has exactly the layout that the signer writes.
pub open spec fn parsed_input(s: Seq<char>) -> Option<ParamsView> {
    let p0 = "sig2="@.len() + "(\"@authority\" \"@path\"); created="@.len();
    let e1 = digit_run(s, p0 as int);
    let p1 = e1 + "; expires="@.len();
    let e2 = digit_run(s, p1);
    let p2 = e2 + "; keyid=\""@.len();
    let e3 = quote_from(s, p2)->Some_0;
    let p3 = e3 + "\"; alg=\""@.len();
    let e4 = quote_from(s, p3)->Some_0;
    let p4 = e4 + "\"; nonce=\""@.len();
    let e5 = quote_from(s, p4)->Some_0;
    let p5 = e5 + "\"; tag=\""@.len();
    let e6 = quote_from(s, p5)->Some_0;
    if lit_at(s, 0, "sig2="@) && lit_at(s, "sig2="@.len() as int, "(\"@authority\" \"@path\"); created="@)
        && decimal_value(s.subrange(p0 as int, e1)) is Some && lit_at(s, e1, "; expires="@)
        && decimal_value(s.subrange(p1, e2)) is Some && lit_at(s, e2, "; keyid=\""@) && quote_from(
        s,
        p2,
    ) is Some && lit_at(s, e3, "\"; alg=\""@) && quote_from(s, p3) is Some && algorithm_named(
        s.subrange(p3, e4),
    ) is Some && lit_at(s, e4, "\"; nonce=\""@) && quote_from(s, p4) is Some && lit_at(
        s,
        e5,
        "\"; tag=\""@,
    ) && quote_from(s, p5) is Some && lit_at(s, e6, "\""@) && e6 + 1 == s.len() {
        Some(
            ParamsView {
                created: decimal_value(s.subrange(p0 as int, e1))->Some_0,
                expires: decimal_value(s.subrange(p1, e2))->Some_0,
                key_id: s.subrange(p2, e3),
                alg: algorithm_named(s.subrange(p3, e4))->Some_0,
                nonce: s.subrange(p4, e5),
                tag: s.subrange(p5, e6),
            },
        )
    } else {
        None
    }
}

proof fn lemma_digit_run(s: Seq<char>, pos: int, k: int)
    requires
        0 <= pos,
        0 <= k,
        pos + k <= s.len(),
        forall|j: int| pos <= j < pos + k ==> is_digit(#[trigger] s[j]),
        pos + k == s.len() || !is_digit(s[pos + k]),
    ensures
        digit_run(s, pos) == pos + k,
    decreases k,
{
    if k > 0 {
        lemma_digit_run(s, pos + 1, k - 1);
    }
}

proof fn lemma_quote_from(s: Seq<char>, pos: int, k: int)
    requires
        0 <= pos,
        0 <= k,
        pos + k < s.len(),
        forall|j: int| pos <= j < pos + k ==> #[trigger] s[j] != '"',
        s[pos + k] == '"',
    ensures
        quote_from(s, pos) == Some(pos + k),
    decreases k,
{
    if k > 0 {
        lemma_quote_from(s, pos + 1, k - 1);
    }
}

/// When `s` begins with `x` followed by `p`, it begins with `x`, and `p`
/// stands right after it.
proof fn lemma_step(s: Seq<char>, x: Seq<char>, p: Seq<char>)
    requires
        x.len() + p.len() <= s.len(),
        s.subrange(0, (x.len() + p.len()) as int) == x + p,
    ensures
        s.subrange(0, x.len() as int) == x,
        s.subrange(x.len() as int, (x.len() + p.len()) as int) == p,
{
    assert(s.subrange(0, x.len() as int) =~= (x + p).subrange(0, x.len() as int));
    assert(s.subrange(x.len() as int, (x.len() + p.len()) as int) =~= (x + p).subrange(
        x.len() as int,
        (x.len() + p.len()) as int,
    ));
}

/// A run of digits at `off` that is followed by a literal beginning with a
/// non-digit ends there.
proof fn lemma_run_ends(s: Seq<char>, off: int, run: Seq<char>, next: Seq<char>)
    requires
        0 <= off,
        off + run.len() + next.len() <= s.len(),
        s.subrange(off, off + run.len()) == run,
        s.subrange(off + run.len(), off + run.len() + next.len()) == next,
        all_digits(run),
        next.len() > 0,
        !is_digit(next[0]),
    ensures
        digit_run(s, off) == off + run.len(),
{
    assert forall|j: int| off <= j < off + run.len() implies is_digit(#[trigger] s[j]) by {
        assert(s[j] == s.subrange(off, off + run.len())[j - off]);
    }
    assert(s[off + run.len()] == s.subrange(off + run.len(), off + run.len() + next.len())[0]);
    lemma_digit_run(s, off, run.len() as int);
}

/// A quoted value at `off` without double quotes, followed by a literal
/// beginning with one, ends there.
proof fn lemma_quoted_ends(s: Seq<char>, off: int, value: Seq<char>, next: Seq<char>)
    requires
        0 <= off,
        off + value.len() + next.len() <= s.len(),
        s.subrange(off, off + value.len()) == value,
        s.subrange(off + value.len(), off + value.len() + next.len()) == next,
        quote_free(value),
        next.len() > 0,
        next[0] == '"',
    ensures
        quote_from(s, off) == Some(off + value.len()),
{
    assert forall|j: int| off <= j < off + value.len() implies #[trigger] s[j] != '"' by {
        assert(s[j] == s.subrange(off, off + value.len())[j - off]);
    }
    assert(s[off + value.len()] == s.subrange(off + value.len(), off + value.len() + next.len())[0]);
    lemma_quote_from(s, off, value.len() as int);
}

proof fn lemma_literal_heads()
    ensures
        "; expires="@.len() > 0 && "; expires="@[0] == ';',
        "; keyid=\""@.len() > 0 && "; keyid=\""@[0] == ';',
        "\"; alg=\""@.len() > 0 && "\"; alg=\""@[0] == '"',
        "\"; nonce=\""@.len() > 0 && "\"; nonce=\""@[0] == '"',
        "\"; tag=\""@.len() > 0 && "\"; tag=\""@[0] == '"',
        "\""@.len() == 1 && "\""@[0] == '"',
        quote_free(SignatureAlgorithm::Ed25519.name()),
        quote_free(SignatureAlgorithm::RsaPssSha256.name()),
{
    reveal_strlit("; expires=");
    reveal_strlit("; keyid=\"");
    reveal_strlit("\"; alg=\"");
    reveal_strlit("\"; nonce=\"");
    reveal_strlit("\"; tag=\"");
    reveal_strlit("\"");
    reveal_strlit("ed25519");
    reveal_strlit("rsa-pss-sha256");
}

/// Reading back what the signer writes gives the parameters it wrote.
#[verifier::rlimit(50)]
pub proof fn lemma_parse_rendered(q: ParamsView)
    requires
        quotable(q),
    ensures
        parsed_input(signature_input_value(q)) == Some(q),
{
    lemma_literal_heads();
    let s = signature_input_value(q);
    let la = "sig2="@;
    let lb = "(\"@authority\" \"@path\"); created="@;
    let l2 = "; expires="@;
    let l3 = "; keyid=\""@;
    let l4 = "\"; alg=\""@;
    let l5 = "\"; nonce=\""@;
    let l6 = "\"; tag=\""@;
    let l7 = "\""@;
    let dc = decimal(q.created);
    let de = decimal(q.expires);
    let a = q.alg.name();
    let x0 = la;
    let x1 = x0 + lb;
    let x2 = x1 + dc;
    let x3 = x2 + l2;
    let x4 = x3 + de;
    let x5 = x4 + l3;
    let x6 = x5 + q.key_id;
    let x7 = x6 + l4;
    let x8 = x7 + a;
    let x9 = x8 + l5;
    let x10 = x9 + q.nonce;
    let x11 = x10 + l6;
    let x12 = x11 + q.tag;
    assert(s =~= x12 + l7);
    assert(s.subrange(0, (x12.len() + l7.len()) as int) =~= x12 + l7);
    lemma_step(s, x12, l7);
    lemma_step(s, x11, q.tag);
    lemma_step(s, x10, l6);
    lemma_step(s, x9, q.nonce);
    lemma_step(s, x8, l5);
    lemma_step(s, x7, a);
    lemma_step(s, x6, l4);
    lemma_step(s, x5, q.key_id);
    lemma_step(s, x4, l3);
    lemma_step(s, x3, de);
    lemma_step(s, x2, l2);
    lemma_step(s, x1, dc);
    lemma_step(s, x0, lb);
    assert(Seq::<char>::empty() + la == la);
    lemma_step(s, Seq::<char>::empty(), la);
    lemma_decimal_digits(q.created);
    lemma_decimal_digits(q.expires);
    lemma_run_ends(s, x1.len() as int, dc, l2);
    lemma_run_ends(s, x3.len() as int, de, l3);
    lemma_quoted_ends(s, x5.len() as int, q.key_id, l4);
    lemma_quoted_ends(s, x7.len() as int, a, l5);
    lemma_quoted_ends(s, x9.len() as int, q.nonce, l6);
    lemma_quoted_ends(s, x11.len() as int, q.tag, l7);
    if q.alg != SignatureAlgorithm::Ed25519 {
        lemma_algorithm_names_differ(q.alg, SignatureAlgorithm::Ed25519);
    }
    assert(algorithm_named(a) == Some(q.alg));
    assert(parsed_input(s) =~= Some(q));
}

proof fn lemma_digit_run_bounds(s: Seq<char>, pos: int)
    requires
        0 <= pos <= s.len(),
    ensures
        pos <= digit_run(s, pos) <= s.len(),
    decreases s.len() - pos,
{
    if pos < s.len() && is_digit(s[pos]) {
        lemma_digit_run_bounds(s, pos + 1);
    }
}

proof fn lemma_quote_from_bounds(s: Seq<char>, pos: int)
    requires
        0 <= pos,
        quote_from(s, pos) is Some,
    ensures
        pos <= quote_from(s, pos)->Some_0 < s.len(),
        forall|j: int| pos <= j < quote_from(s, pos)->Some_0 ==> #[trigger] s[j] != '"',
    decreases s.len() - pos,
{
    if s[pos] != '"' {
        lemma_quote_from_bounds(s, pos + 1);
    }
}

/// A prefix of `s` that is `x` up to `a`, then `piece` up to `b`.
proof fn lemma_extend(s: Seq<char>, a: int, b: int, x: Seq<char>, piece: Seq<char>)
    requires
        0 <= a <= b <= s.len(),
        s.subrange(0, a) == x,
        s.subrange(a, b) == piece,
    ensures
        s.subrange(0, b) == x + piece,
{
    assert(s.subrange(0, b) =~= s.subrange(0, a) + s.subrange(a, b));
}

/// The rendering of `q` when `s` holds its pieces at the given cuts.
#[verifier::rlimit(50)]
proof fn lemma_rendered_from_pieces(
    s: Seq<char>,
    q: ParamsView,
    cuts: (int, int, int, int, int, int, int),
    ends: (int, int, int, int, int, int, int),
)
    requires
        ({
            let (a0, p0, p1, p2, p3, p4, p5) = cuts;
            let (e1, e2, e3, e4, e5, e6, e7) = ends;
            &&& a0 == "sig2="@.len() && p0 == a0 + "(\"@authority\" \"@path\"); created="@.len()
            &&& p0 <= e1 && p1 == e1 + "; expires="@.len() && p1 <= e2
            &&& p2 == e2 + "; keyid=\""@.len() && p2 <= e3 && p3 == e3 + "\"; alg=\""@.len()
            &&& p3 <= e4 && p4 == e4 + "\"; nonce=\""@.len() && p4 <= e5
            &&& p5 == e5 + "\"; tag=\""@.len() && p5 <= e6 && e7 == e6 + 1 && e7 == s.len()
            &&& s.subrange(0, a0) == "sig2="@
            &&& s.subrange(a0, p0) == "(\"@authority\" \"@path\"); created="@
            &&& s.subrange(p0, e1) == decimal(q.created)
            &&& s.subrange(e1, p1) == "; expires="@
            &&& s.subrange(p1, e2) == decimal(q.expires)
            &&& s.subrange(e2, p2) == "; keyid=\""@
            &&& s.subrange(p2, e3) == q.key_id
            &&& s.subrange(e3, p3) == "\"; alg=\""@
            &&& s.subrange(p3, e4) == q.alg.name()
            &&& s.subrange(e4, p4) == "\"; nonce=\""@
            &&& s.subrange(p4, e5) == q.nonce
            &&& s.subrange(e5, p5) == "\"; tag=\""@
            &&& s.subrange(p5, e6) == q.tag
            &&& s.subrange(e6, e7) == "\""@
        }),
    ensures
        signature_input_value(q) == s,
{
    let (a0, p0, p1, p2, p3, p4, p5) = cuts;
    let (e1, e2, e3, e4, e5, e6, e7) = ends;
    let la = "sig2="@;
    let lb = "(\"@authority\" \"@path\"); created="@;
    let l2 = "; expires="@;
    let l3 = "; keyid=\""@;
    let l4 = "\"; alg=\""@;
    let l5 = "\"; nonce=\""@;
    let l6 = "\"; tag=\""@;
    let l7 = "\""@;
    lemma_extend(s, a0, p0, la, lb);
    let x1 = la + lb;
    lemma_extend(s, p0, e1, x1, decimal(q.created));
    let x2 = x1 + decimal(q.created);
    lemma_extend(s, e1, p1, x2, l2);
    let x3 = x2 + l2;
    lemma_extend(s, p1, e2, x3, decimal(q.expires));
    let x4 = x3 + decimal(q.expires);
    lemma_extend(s, e2, p2, x4, l3);
    let x5 = x4 + l3;
    lemma_extend(s, p2, e3, x5, q.key_id);
    let x6 = x5 + q.key_id;
    lemma_extend(s, e3, p3, x6, l4);
    let x7 = x6 + l4;
    lemma_extend(s, p3, e4, x7, q.alg.name());
    let x8 = x7 + q.alg.name();
    lemma_extend(s, e4, p4, x8, l5);
    let x9 = x8 + l5;
    lemma_extend(s, p4, e5, x9, q.nonce);
    let x10 = x9 + q.nonce;
    lemma_extend(s, e5, p5, x10, l6);
    let x11 = x10 + l6;
    lemma_extend(s, p5, e6, x11, q.tag);
    let x12 = x11 + q.tag;
    lemma_extend(s, e6, e7, x12, l7);
    assert(s.subrange(0, s.len() as int) =~= s);
    assert(signature_input_value(q) =~= x12 + l7);
}

/// The quoted fields of an accepted value hold no double quote.
proof fn lemma_parsed_quotable(s: Seq<char>)
    requires
        parsed_input(s) is Some,
    ensures
        quotable(parsed_input(s)->Some_0),
{
    let q = parsed_input(s)->Some_0;
    let p0 = "sig2="@.len() + "(\"@authority\" \"@path\"); created="@.len();
    let e1 = digit_run(s, p0 as int);
    let p1 = e1 + "; expires="@.len();
    let e2 = digit_run(s, p1);
    let p2 = e2 + "; keyid=\""@.len();
    let e3 = quote_from(s, p2)->Some_0;
    let p3 = e3 + "\"; alg=\""@.len();
    let e4 = quote_from(s, p3)->Some_0;
    let p4 = e4 + "\"; nonce=\""@.len();
    let e5 = quote_from(s, p4)->Some_0;
    let p5 = e5 + "\"; tag=\""@.len();
    lemma_digit_run_bounds(s, p0 as int);
    lemma_digit_run_bounds(s, p1);
    lemma_quote_from_bounds(s, p2);
    lemma_quote_from_bounds(s, p4);
    lemma_quote_from_bounds(s, p5);
    lemma_canonical_digits(s.subrange(p0 as int, e1));
    lemma_canonical_digits(s.subrange(p1, e2));
    assert forall|i: int| 0 <= i < q.key_id.len() implies q.key_id[i] != '"' by {
        assert(q.key_id[i] == s[p2 + i]);
    }
    assert forall|i: int| 0 <= i < q.nonce.len() implies q.nonce[i] != '"' by {
        assert(q.nonce[i] == s[p4 + i]);
    }
    assert forall|i: int| 0 <= i < q.tag.len() implies q.tag[i] != '"' by {
        assert(q.tag[i] == s[p5 + i]);
    }
}

/// What the parser accepts is exactly what the signer writes: the value is
/// the rendering of the parameters it reads as.
pub proof fn lemma_parsed_is_rendered(s: Seq<char>)
    requires
        parsed_input(s) is Some,
    ensures
        quotable(parsed_input(s)->Some_0),
        signature_input_value(parsed_input(s)->Some_0) == s,
{
    lemma_literal_heads();
    lemma_parsed_quotable(s);
    let q = parsed_input(s)->Some_0;
    let a0 = "sig2="@.len() as int;
    let p0 = a0 + "(\"@authority\" \"@path\"); created="@.len();
    let e1 = digit_run(s, p0);
    let p1 = e1 + "; expires="@.len();
    let e2 = digit_run(s, p1);
    let p2 = e2 + "; keyid=\""@.len();
    let e3 = quote_from(s, p2)->Some_0;
    let p3 = e3 + "\"; alg=\""@.len();
    let e4 = quote_from(s, p3)->Some_0;
    let p4 = e4 + "\"; nonce=\""@.len();
    let e5 = quote_from(s, p4)->Some_0;
    let p5 = e5 + "\"; tag=\""@.len();
    let e6 = quote_from(s, p5)->Some_0;
    lemma_digit_run_bounds(s, p0);
    lemma_digit_run_bounds(s, p1);
    lemma_quote_from_bounds(s, p2);
    lemma_quote_from_bounds(s, p3);
    lemma_quote_from_bounds(s, p4);
    lemma_quote_from_bounds(s, p5);
    lemma_canonical_digits(s.subrange(p0, e1));
    lemma_canonical_digits(s.subrange(p1, e2));
    lemma_rendered_from_pieces(
        s,
        q,
        (a0, p0, p1, p2, p3, p4, p5),
        (e1, e2, e3, e4, e5, e6, e6 + 1),
    );
}

fn match_literal(v: &Vec<char>, pos: usize, lit: &str) -> (r: Option<usize>)
    requires
        pos <= v@.len(),
    ensures
        r == (if lit_at(v@, pos as int, lit@) {
            Some((pos + lit@.len()) as usize)
        } else {
            None
        }),
{
    let l = chars_of(lit);
    let n = v.len();
    if l.len() > n - pos {
        return None;
    }
    let mut i: usize = 0;
    while i < l.len()
        invariant
            l@ == lit@,
            n == v@.len(),
            pos + l@.len() <= n,
            i <= l@.len(),
            forall|j: int| 0 <= j < i ==> v@[pos + j] == l@[j],
        decreases l@.len() - i,
    {
        assert(pos + i < v@.len());
        if v[pos + i] != l[i] {
            assert(v@.subrange(pos as int, pos + l@.len())[i as int] != l@[i as int]);
            return None;
        }
        i = i + 1;
    }
    assert(v@.subrange(pos as int, pos + l@.len()) =~= l@);
    Some(pos + l.len())
}

fn digit_run_end(v: &Vec<char>, pos: usize) -> (e: usize)
    requires
        pos <= v@.len(),
    ensures
        e as int == digit_run(v@, pos as int),
        pos <= e <= v@.len(),
        all_digits(v@.subrange(pos as int, e as int)),
{
    let mut i: usize = pos;
    while i < v.len() && '0' <= v[i] && v[i] <= '9'
        invariant
            pos <= i <= v@.len(),
            digit_run(v@, pos as int) == digit_run(v@, i as int),
            forall|j: int| pos <= j < i ==> is_digit(#[trigger] v@[j]),
        decreases v@.len() - i,
    {
        i = i + 1;
    }
    assert forall|j: int| 0 <= j < i - pos implies '0' <= #[trigger] v@.subrange(
        pos as int,
        i as int,
    )[j] && v@.subrange(pos as int, i as int)[j] <= '9' by {
        assert(is_digit(v@[pos + j]));
    }
    i
}

fn quote_index(v: &Vec<char>, pos: usize) -> (r: Option<usize>)
    requires
        pos <= v@.len(),
    ensures
        match r {
            Some(e) => pos <= e < v@.len() && quote_from(v@, pos as int) == Some(e as int),
            None => quote_from(v@, pos as int) is None,
        },
{
    let mut i: usize = pos;
    while i < v.len()
        invariant
            pos <= i <= v@.len(),
            quote_from(v@, pos as int) == quote_from(v@, i as int),
        decreases v@.len() - i,
    {
        if v[i] == '"' {
            return Some(i);
        }
        i = i + 1;
    }
    None
}

fn parse_decimal(v: &Vec<char>, lo: usize, hi: usize) -> (r: Option<u64>)
    requires
        lo <= hi <= v@.len(),
    ensures
        match r {
            Some(n) => decimal_value(v@.subrange(lo as int, hi as int)) == Some(n as nat),
            None => decimal_value(v@.subrange(lo as int, hi as int)) is None,
        },
{
    let ghost run = v@.subrange(lo as int, hi as int);
    if hi == lo {
        return None;
    }
    if hi - lo > 1 && v[lo] == '0' {
        assert(run[0] == '0');
        return None;
    }
    let mut acc: u64 = 0;
    let mut i: usize = lo;
    while i < hi
        invariant
            lo <= i <= hi <= v@.len(),
            run == v@.subrange(lo as int, hi as int),
            all_digits(run.subrange(0, i - lo)),
            acc as int == digits_value(run.subrange(0, i - lo)),
        decreases hi - i,
    {
        let c = v[i];
        if c < '0' || c > '9' {
            assert(run[i - lo] == c);
            return None;
        }
        let d = (c as u32 - '0' as u32) as u64;
        assert(d <= 9);
        let ghost p = run.subrange(0, i - lo);
        let ghost p2 = run.subrange(0, i + 1 - lo);
        assert(p2.drop_last() =~= p);
        assert(p2.last() == c);
        assert(all_digits(p2));
        if acc > (u64::MAX - d) / 10 {
            proof {
                assert(digits_value(p2) > u64::MAX) by (nonlinear_arith)
                    requires
                        digits_value(p2) == acc * 10 + d,
                        acc > (u64::MAX - d) / 10,
                        d <= 9,
                ;
                if all_digits(run) {
                    lemma_digits_value_grows(run, i + 1 - lo);
                }
            }
            return None;
        }
        acc = acc * 10 + d;
        i = i + 1;
    }
    assert(run.subrange(0, hi - lo) =~= run);
    Some(acc)
}

fn algorithm_of(v: &Vec<char>, lo: usize, hi: usize) -> (r: Option<SignatureAlgorithm>)
    requires
        lo <= hi <= v@.len(),
    ensures
        r == algorithm_named(v@.subrange(lo as int, hi as int)),
{
    let name = slice_chars(v, lo, hi);
    if chars_equal(&name, &chars_of(SignatureAlgorithm::Ed25519.as_str())) {
        Some(SignatureAlgorithm::Ed25519)
    } else if chars_equal(&name, &chars_of(SignatureAlgorithm::RsaPssSha256.as_str())) {
        Some(SignatureAlgorithm::RsaPssSha256)
    } else {
        None
    }
}

/// Reads a `Signature-Input` header value back into the parameters it
/// carries.
pub fn parse_signature_input(value: &str) -> (r: Option<SignatureParams>)
    ensures
        match r {
            Some(p) => parsed_input(value@) == Some(p@),
            None => parsed_input(value@) is None,
        },
{
    proof {
        lemma_literal_heads();
    }
    let v = chars_of(value);
    let a = match match_literal(&v, 0, "sig2=") {
        Some(x) => x,
        None => return None,
    };
    let p0 = match match_literal(&v, a, "(\"@authority\" \"@path\"); created=") {
        Some(x) => x,
        None => return None,
    };
    let e1 = digit_run_end(&v, p0);
    let created = match parse_decimal(&v, p0, e1) {
        Some(x) => x,
        None => return None,
    };
    let p1 = match match_literal(&v, e1, "; expires=") {
        Some(x) => x,
        None => return None,
    };
    let e2 = digit_run_end(&v, p1);
    let expires = match parse_decimal(&v, p1, e2) {
        Some(x) => x,
        None => return None,
    };
    let p2 = match match_literal(&v, e2, "; keyid=\"") {
        Some(x) => x,
        None => return None,
    };
    let e3 = match quote_index(&v, p2) {
        Some(x) => x,
        None => return None,
    };
    let p3 = match match_literal(&v, e3, "\"; alg=\"") {
        Some(x) => x,
        None => return None,
    };
    let e4 = match quote_index(&v, p3) {
        Some(x) => x,
        None => return None,
    };
    let alg = match algorithm_of(&v, p3, e4) {
        Some(x) => x,
        None => return None,
    };
    let p4 = match match_literal(&v, e4, "\"; nonce=\"") {
        Some(x) => x,
        None => return None,
    };
    let e5 = match quote_index(&v, p4) {
        Some(x) => x,
        None => return None,
    };
    let p5 = match match_literal(&v, e5, "\"; tag=\"") {
        Some(x) => x,
        None => return None,
    };
    let e6 = match quote_index(&v, p5) {
        Some(x) => x,
        None => return None,
    };
    let end = match match_literal(&v, e6, "\"") {
        Some(x) => x,
        None => return None,
    };
    if end != v.len() {
        return None;
    }
    let key_id = string_from_chars(slice_chars(&v, p2, e3).as_slice());
    let nonce = string_from_chars(slice_chars(&v, p4, e5).as_slice());
    let tag = string_from_chars(slice_chars(&v, p5, e6).as_slice());
    Some(SignatureParams { created, expires, key_id, alg, nonce, tag })
}

#[derive(Debug, Clone, Copy, PartialEq, Eq, Structural)]
pub enum RequestSignatureError {
    /// The `Signature-Input` value does not have the expected layout.
    MalformedInput,
    /// The signature's `expires` time has passed.
    Expired,
    /// The signature does not verify under the public key.
    BadSignature,
}

/// The outcome of verifying a request that carries a `Signature-Input`
/// value, a `Signature` value, at time `now`.
pub open spec fn request_verdict(
    c: ComponentsView,
    input: Seq<char>,
    signature: Seq<char>,
    public_key: Seq<u8>,
    now: nat,
) -> Result<ParamsView, RequestSignatureError> {
    match parsed_input(input) {
        None => Err(RequestSignatureError::MalformedInput),
        Some(p) => if now > p.expires {
            Err(RequestSignatureError::Expired)
        } else if signature_accepted(c, p, public_key, signature) {
            Ok(p)
        } else {
            Err(RequestSignatureError::BadSignature)
        },
    }
}

/// Verifies a request signed with the `Signature-Input` / `Signature`
/// header pair under an Ed25519 public key, at time `now`, and returns the
/// parameters it was signed with.
pub fn verify_signed_request(
    components: &SignatureComponents,
    signature_input: &str,
    signature: &str,
    public_key: &[u8],
    now: u64,
) -> (r: Result<SignatureParams, RequestSignatureError>)
    ensures
        match request_verdict(
            components@,
            signature_input@,
            signature@,
            public_key@,
            now as nat,
        ) {
            Ok(p) => r matches Ok(x) && x@ == p,
            Err(e) => r == Err::<SignatureParams, _>(e),
        },
        forall|secret: Seq<u8>, q: ParamsView|
            #![trigger ed25519_signature_of(secret, signed_message(components@, q))]
            quotable(q) && secret.len() == 32 && public_key@ == ed25519_public_of(secret)
                && signature_input@ == signature_input_value(q) && signature@ == signature_value(
                ed25519_signature_of(secret, signed_message(components@, q)),
            ) && now <= q.expires ==> (r matches Ok(x) && x@ == q),
{
    proof {
        assert forall|q: ParamsView|
            #![trigger signature_input_value(q)]
            quotable(q) && signature_input@ == signature_input_value(q) implies parsed_input(
            signature_input@,
        ) == Some(q) by {
            lemma_parse_rendered(q);
        }
    }
    let params = match parse_signature_input(signature_input) {
        Some(p) => p,
        None => return Err(RequestSignatureError::MalformedInput),
    };
    if now > params.expires {
        return Err(RequestSignatureError::Expired);
    }
    if RFC9421Signature::verify_ed25519(components, &params, public_key, signature) {
        Ok(params)
    } else {
        Err(RequestSignatureError::BadSignature)
    }
}

} // verus!
