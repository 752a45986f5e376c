//! The check value (`CheckMacValue`) that signs a request.

use vstd::prelude::*;

use crate::digest;
use crate::encoding;
use crate::errors::IntegrationError;
use crate::params;
use crate::params::ParamMap;
use crate::text;

verus! {

/// A parameter as it stands in the query text, with the sign that parts it
/// from what stands before.
pub open spec fn param_text(p: params::Param) -> Seq<char> {
    "&"@ + encoding::ecpay_encoded(p.0) + "="@ + encoding::ecpay_encoded(p.1)
}

/// Parameters one after the other.
pub open spec fn params_text(ps: Seq<params::Param>) -> Seq<char>
    decreases ps.len(),
{
    if ps.len() == 0 {
        seq![]
    } else {
        params_text(ps.drop_last()) + param_text(ps.last())
    }
}

/// The query text over parameters in signing order: the hash key in front and
/// the hash IV behind.
pub open spec fn query_text(
    sorted: Seq<params::Param>,
    hash_key: Seq<char>,
    hash_iv: Seq<char>,
) -> Seq<char> {
    "HashKey="@ + hash_key + params_text(sorted) + "&HashIV="@ + hash_iv
}

/// The text whose bytes are hashed: the query text, encoded as a whole and put
/// in small letters.
pub open spec fn signed_text(
    ps: Seq<params::Param>,
    hash_key: Seq<char>,
    hash_iv: Seq<char>,
) -> Seq<char> {
    text::ascii_lower(
        encoding::ecpay_encoded(query_text(params::sorted_params(ps), hash_key, hash_iv)),
    )
}

/// The check value of parameters: the SHA-256 digest of the signed text in
/// capital hexadecimal digits.
pub open spec fn check_mac_value(
    ps: Seq<params::Param>,
    hash_key: Seq<char>,
    hash_iv: Seq<char>,
) -> Seq<char> {
    digest::hex_upper(
        digest::sha256(vstd::utf8::encode_utf8(signed_text(ps, hash_key, hash_iv))),
    )
}

/// A digit or a letter from `A` to `F`.
pub open spec fn is_upper_hex(c: char) -> bool {
    ('0' <= c && c <= '9') || ('A' <= c && c <= 'F')
}

/// The text that the check value of `params` is the digest of.
pub fn text_to_sign(params: &ParamMap, hash_key: &str, hash_iv: &str) -> (r: String)
    ensures
        r@ == signed_text(params@, hash_key@, hash_iv@),
        params::distinct_names(params@),
{
    let sorted = params.sorted();
    let ghost ps = params::refs_view(sorted@);
    let mut query = "HashKey=".to_owned();
    query.append(hash_key);
    let mut i: usize = 0;
    assert(ps.take(0) =~= seq![]);
    assert(query@ =~= "HashKey="@ + hash_key@ + params_text(ps.take(0)));
    while i < sorted.len()
        invariant
            i <= sorted@.len(),
            ps == params::refs_view(sorted@),
            query@ == "HashKey="@ + hash_key@ + params_text(ps.take(i as int)),
        decreases sorted@.len() - i,
    {
        let (name, value) = sorted[i];
        let ghost before = query@;
        let encoded_name = encoding::ecpay_url_encode(name.as_str());
        let encoded_value = encoding::ecpay_url_encode(value.as_str());
        query.append("&");
        query.append(encoded_name.as_str());
        query.append("=");
        query.append(encoded_value.as_str());
        proof {
            let taken = ps.take(i + 1);
            assert(taken.drop_last() =~= ps.take(i as int));
            assert(taken.last() == (name@, value@));
            assert(query@ =~= before + param_text(taken.last()));
            assert(query@ =~= "HashKey="@ + hash_key@ + params_text(taken));
        }
        i = i + 1;
    }
    assert(ps.take(i as int) =~= ps);
    query.append("&HashIV=");
    query.append(hash_iv);
    assert(query@ == query_text(ps, hash_key@, hash_iv@));
    let encoded = encoding::ecpay_url_encode_full(query.as_str());
    proof {
        encoding::lemma_encoded_is_ascii(query@);
    }
    encoded.as_str().to_lowercase()
}

/// The check value of `params` under a merchant's hash key and hash IV. It is
/// never refused.
pub fn compute_check_mac_value(params: &ParamMap, hash_key: &str, hash_iv: &str) -> (r: Result<
    String,
    IntegrationError,
>)
    ensures
        r is Ok,
        r->Ok_0@ == check_mac_value(params@, hash_key@, hash_iv@),
        r->Ok_0@ == digest::hex_upper(
            digest::sha256(
                vstd::utf8::encode_utf8(
                    text::ascii_lower(
                        encoding::ecpay_encoded(
                            "HashKey="@ + hash_key@ + params_text(params::sorted_params(params@))
                                + "&HashIV="@ + hash_iv@,
                        ),
                    ),
                ),
            ),
        ),
        r->Ok_0@.len() == 64,
        forall|i: int| 0 <= i < 64 ==> is_upper_hex(#[trigger] r->Ok_0@[i]),
        params::distinct_names(params@),
{
    let signed = text_to_sign(params, hash_key, hash_iv);
    let hash = digest::sha256_digest(signed.as_str().as_bytes());
    let value = digest::digest_text(hash.as_slice());
    assert forall|i: int| 0 <= i < 64 implies is_upper_hex(#[trigger] value@[i]) by {
        assert(0 <= digest::nibble(hash@, i) < 16);
    }
    Ok(value)
}

/// The check value depends on which value each name has and not on the order
/// in which the names were set, as long as no two names differ in letter case
/// alone.
pub proof fn lemma_check_mac_of_map(
    a: Seq<params::Param>,
    b: Seq<params::Param>,
    hash_key: Seq<char>,
    hash_iv: Seq<char>,
)
    requires
        params::distinct_names(a),
        params::distinct_names(b),
        params::as_map(a) == params::as_map(b),
        params::distinct_sort_keys(a),
    ensures
        check_mac_value(a, hash_key, hash_iv) == check_mac_value(b, hash_key, hash_iv),
{
    params::lemma_sorted_params_of_map(a, b);
}

/// Two parameters differ at most in the case of ASCII letters.
pub open spec fn same_param(p: params::Param, q: params::Param) -> bool {
    text::ascii_lower(p.0) == text::ascii_lower(q.0) && text::ascii_lower(p.1) == text::ascii_lower(
        q.1,
    )
}

/// Two lists differ, place by place, at most in the case of ASCII letters.
pub open spec fn same_but_for_case(a: Seq<params::Param>, b: Seq<params::Param>) -> bool {
    &&& a.len() == b.len()
    &&& forall|i: int| 0 <= i < a.len() ==> #[trigger] same_param(a[i], b[i])
}

/// A list holds a parameter that differs at most in the case of ASCII letters.
pub open spec fn holds_same(ps: Seq<params::Param>, p: params::Param) -> bool {
    exists|i: int| 0 <= i < ps.len() && #[trigger] same_param(p, ps[i])
}

/// Inserting parameters that differ in letter case puts them in the same place.
proof fn lemma_insert_case(
    a: Seq<params::Param>,
    b: Seq<params::Param>,
    p: params::Param,
    q: params::Param,
)
    requires
        same_but_for_case(a, b),
        same_param(p, q),
    ensures
        same_but_for_case(params::insert_sorted(a, p), params::insert_sorted(b, q)),
    decreases a.len(),
{
    let r = params::insert_sorted(a, p);
    let s = params::insert_sorted(b, q);
    params::lemma_sort_key_ignores_case(p.0, q.0);
    if a.len() > 0 {
        let n = a.len() - 1;
        assert(same_param(a[n], b[n]));
        params::lemma_sort_key_ignores_case(a[n].0, b[n].0);
        if !params::param_le(a.last(), p) {
            lemma_same_fronts(a, b);
            lemma_insert_case(a.drop_last(), b.drop_last(), p, q);
            let r1 = params::insert_sorted(a.drop_last(), p);
            let s1 = params::insert_sorted(b.drop_last(), q);
            assert forall|i: int| 0 <= i < r.len() implies #[trigger] same_param(r[i], s[i]) by {
                if i < r1.len() {
                    assert(same_param(r1[i], s1[i]));
                }
            }
        } else {
            assert forall|i: int| 0 <= i < r.len() implies #[trigger] same_param(r[i], s[i]) by {
                if i < a.len() {
                    assert(same_param(a[i], b[i]));
                }
            }
        }
    }
}

/// Lists that differ in letter case do no more without their last parameters.
proof fn lemma_same_fronts(a: Seq<params::Param>, b: Seq<params::Param>)
    requires
        same_but_for_case(a, b),
        a.len() > 0,
    ensures
        same_but_for_case(a.drop_last(), b.drop_last()),
{
    let a1 = a.drop_last();
    let b1 = b.drop_last();
    assert forall|i: int| 0 <= i < a1.len() implies #[trigger] same_param(a1[i], b1[i]) by {
        assert(same_param(a[i], b[i]));
    }
}

/// Parameters that differ in letter case are signed in the same order.
proof fn lemma_sorted_case(a: Seq<params::Param>, b: Seq<params::Param>)
    requires
        same_but_for_case(a, b),
    ensures
        same_but_for_case(params::sorted_params(a), params::sorted_params(b)),
    decreases a.len(),
{
    if a.len() > 0 {
        lemma_same_fronts(a, b);
        lemma_sorted_case(a.drop_last(), b.drop_last());
        assert(same_param(a[a.len() - 1], b[b.len() - 1]));
        lemma_insert_case(
            params::sorted_params(a.drop_last()),
            params::sorted_params(b.drop_last()),
            a.last(),
            b.last(),
        );
    }
}

/// The text of a parameter in small letters.
proof fn lemma_lower_param_text(p: params::Param)
    ensures
        text::ascii_lower(param_text(p)) == seq!['&'] + text::ascii_lower(
            encoding::ecpay_encoded(p.0),
        ) + seq!['='] + text::ascii_lower(encoding::ecpay_encoded(p.1)),
{
    reveal_strlit("&");
    reveal_strlit("=");
    let name = encoding::ecpay_encoded(p.0);
    let value = encoding::ecpay_encoded(p.1);
    assert(text::ascii_lower(param_text(p)) =~= seq!['&'] + text::ascii_lower(name) + seq!['=']
        + text::ascii_lower(value));
}

/// Texts of parameters that differ in letter case differ in letter case.
proof fn lemma_params_text_case(a: Seq<params::Param>, b: Seq<params::Param>)
    requires
        same_but_for_case(a, b),
    ensures
        text::ascii_lower(params_text(a)) == text::ascii_lower(params_text(b)),
    decreases a.len(),
{
    if a.len() > 0 {
        let a1 = a.drop_last();
        let b1 = b.drop_last();
        lemma_same_fronts(a, b);
        lemma_params_text_case(a1, b1);
        let p = a.last();
        let q = b.last();
        assert(same_param(a[a.len() - 1], b[b.len() - 1]));
        encoding::lemma_encoded_case(p.0, q.0);
        encoding::lemma_encoded_case(p.1, q.1);
        lemma_lower_param_text(p);
        lemma_lower_param_text(q);
        encoding::lemma_lower_concat(params_text(a1), param_text(p));
        encoding::lemma_lower_concat(params_text(b1), param_text(q));
    }
}

/// What is hashed tells the query text up to the case of ASCII letters, and
/// nothing more.
pub proof fn lemma_signed_text_case(
    a: Seq<params::Param>,
    a_key: Seq<char>,
    a_iv: Seq<char>,
    b: Seq<params::Param>,
    b_key: Seq<char>,
    b_iv: Seq<char>,
)
    ensures
        signed_text(a, a_key, a_iv) == signed_text(b, b_key, b_iv) <==> text::ascii_lower(
            query_text(params::sorted_params(a), a_key, a_iv),
        ) == text::ascii_lower(query_text(params::sorted_params(b), b_key, b_iv)),
{
    encoding::lemma_encoded_case(
        query_text(params::sorted_params(a), a_key, a_iv),
        query_text(params::sorted_params(b), b_key, b_iv),
    );
}

/// The signs that part names and values occur in no encoding.
proof fn lemma_no_signs(s: Seq<char>)
    ensures
        forall|i: int|
            0 <= i < encoding::ecpay_encoded(s).len() ==> #[trigger] encoding::ecpay_encoded(s)[i]
                != '&' && encoding::ecpay_encoded(s)[i] != '=',
{
    encoding::lemma_encoded_alphabet(s);
    let e = encoding::ecpay_encoded(s);
    assert forall|i: int| 0 <= i < e.len() implies #[trigger] e[i] != '&' && e[i] != '=' by {
        assert(encoding::in_alphabet(e[i]));
    }
}

/// Where two texts are equal and each ends in a sign and a text without that
/// sign, the parts are equal.
proof fn lemma_split_at_last(a: Seq<char>, x: Seq<char>, b: Seq<char>, y: Seq<char>, sign: char)
    requires
        a + seq![sign] + x == b + seq![sign] + y,
        forall|i: int| 0 <= i < x.len() ==> #[trigger] x[i] != sign,
        forall|i: int| 0 <= i < y.len() ==> #[trigger] y[i] != sign,
    ensures
        a == b,
        x == y,
{
    let s = a + seq![sign] + x;
    let t = b + seq![sign] + y;
    assert(s.len() == a.len() + 1 + x.len());
    assert(t.len() == b.len() + 1 + y.len());
    assert(s[a.len() as int] == sign);
    assert(t[b.len() as int] == sign);
    if a.len() < b.len() {
        assert(s[b.len() as int] == x[b.len() - a.len() - 1]);
    } else if b.len() < a.len() {
        assert(t[a.len() as int] == y[a.len() - b.len() - 1]);
    }
    assert(a =~= s.take(a.len() as int));
    assert(b =~= t.take(b.len() as int));
    assert(x =~= s.skip(a.len() as int + 1));
    assert(y =~= t.skip(b.len() as int + 1));
}

/// Texts of parameters tell the parameters.
proof fn lemma_params_text_injective(a: Seq<params::Param>, b: Seq<params::Param>)
    requires
        params_text(a) == params_text(b),
    ensures
        a == b,
    decreases a.len(),
{
    reveal_strlit("&");
    reveal_strlit("=");
    assert("&"@ =~= seq!['&']);
    assert("="@ =~= seq!['=']);
    if a.len() == 0 || b.len() == 0 {
        if a.len() > 0 {
            assert(params_text(a).len() > 0);
        }
        if b.len() > 0 {
            assert(params_text(b).len() > 0);
        }
        assert(a =~= b);
    } else {
        let p = a.last();
        let q = b.last();
        let a1 = params_text(a.drop_last());
        let b1 = params_text(b.drop_last());
        let pn = encoding::ecpay_encoded(p.0);
        let pv = encoding::ecpay_encoded(p.1);
        let qn = encoding::ecpay_encoded(q.0);
        let qv = encoding::ecpay_encoded(q.1);
        lemma_no_signs(p.0);
        lemma_no_signs(p.1);
        lemma_no_signs(q.0);
        lemma_no_signs(q.1);
        assert(params_text(a) =~= (a1 + seq!['&'] + pn) + seq!['='] + pv);
        assert(params_text(b) =~= (b1 + seq!['&'] + qn) + seq!['='] + qv);
        lemma_split_at_last(a1 + seq!['&'] + pn, pv, b1 + seq!['&'] + qn, qv, '=');
        lemma_split_at_last(a1, pn, b1, qn, '&');
        encoding::lemma_encoded_injective(p.0, q.0);
        encoding::lemma_encoded_injective(p.1, q.1);
        lemma_params_text_injective(a.drop_last(), b.drop_last());
        assert(a =~= a.drop_last().push(p));
        assert(b =~= b.drop_last().push(q));
    }
}

/// Under one hash key and one hash IV, the query text tells every parameter's
/// name and value: no two lists of parameters share a query text.
pub proof fn lemma_query_text_injective(
    a: Seq<params::Param>,
    b: Seq<params::Param>,
    hash_key: Seq<char>,
    hash_iv: Seq<char>,
)
    requires
        query_text(a, hash_key, hash_iv) == query_text(b, hash_key, hash_iv),
    ensures
        a == b,
{
    let front = "HashKey="@ + hash_key;
    let back = "&HashIV="@ + hash_iv;
    let s = query_text(a, hash_key, hash_iv);
    let t = query_text(b, hash_key, hash_iv);
    assert(s =~= front + params_text(a) + back);
    assert(t =~= front + params_text(b) + back);
    assert(params_text(a) =~= s.subrange(front.len() as int, s.len() - back.len()));
    assert(params_text(b) =~= t.subrange(front.len() as int, t.len() - back.len()));
    lemma_params_text_injective(a, b);
}

/// The signs that part names and values occur in no encoding's small letters.
proof fn lemma_no_signs_lower(s: Seq<char>)
    ensures
        forall|i: int|
            0 <= i < text::ascii_lower(encoding::ecpay_encoded(s)).len()
                ==> #[trigger] text::ascii_lower(encoding::ecpay_encoded(s))[i] != '&'
                && text::ascii_lower(encoding::ecpay_encoded(s))[i] != '=',
{
    lemma_no_signs(s);
    let e = encoding::ecpay_encoded(s);
    let low = text::ascii_lower(e);
    assert forall|i: int| 0 <= i < low.len() implies #[trigger] low[i] != '&' && low[i] != '=' by {
        assert(low[i] == text::ascii_lower_char(e[i]));
        assert(e[i] != '&' && e[i] != '=');
    }
}

/// Texts of parameters tell the parameters, letter case aside.
proof fn lemma_params_text_tells_case(a: Seq<params::Param>, b: Seq<params::Param>)
    requires
        text::ascii_lower(params_text(a)) == text::ascii_lower(params_text(b)),
    ensures
        same_but_for_case(a, b),
    decreases a.len(),
{
    let s = text::ascii_lower(params_text(a));
    let t = text::ascii_lower(params_text(b));
    assert(s.len() == params_text(a).len() && t.len() == params_text(b).len());
    if a.len() == 0 || b.len() == 0 {
        reveal_strlit("&");
        if a.len() > 0 {
            assert(params_text(a).len() > 0);
        }
        if b.len() > 0 {
            assert(params_text(b).len() > 0);
        }
    } else {
        let p = a.last();
        let q = b.last();
        let a1 = text::ascii_lower(params_text(a.drop_last()));
        let b1 = text::ascii_lower(params_text(b.drop_last()));
        let pn = text::ascii_lower(encoding::ecpay_encoded(p.0));
        let pv = text::ascii_lower(encoding::ecpay_encoded(p.1));
        let qn = text::ascii_lower(encoding::ecpay_encoded(q.0));
        let qv = text::ascii_lower(encoding::ecpay_encoded(q.1));
        lemma_no_signs_lower(p.0);
        lemma_no_signs_lower(p.1);
        lemma_no_signs_lower(q.0);
        lemma_no_signs_lower(q.1);
        encoding::lemma_lower_concat(params_text(a.drop_last()), param_text(p));
        encoding::lemma_lower_concat(params_text(b.drop_last()), param_text(q));
        lemma_lower_param_text(p);
        lemma_lower_param_text(q);
        assert(s =~= (a1 + seq!['&'] + pn) + seq!['='] + pv);
        assert(t =~= (b1 + seq!['&'] + qn) + seq!['='] + qv);
        lemma_split_at_last(a1 + seq!['&'] + pn, pv, b1 + seq!['&'] + qn, qv, '=');
        lemma_split_at_last(a1, pn, b1, qn, '&');
        encoding::lemma_encoded_case(p.0, q.0);
        encoding::lemma_encoded_case(p.1, q.1);
        lemma_params_text_tells_case(a.drop_last(), b.drop_last());
        assert forall|i: int| 0 <= i < a.len() implies #[trigger] same_param(a[i], b[i]) by {
            if i < a.len() - 1 {
                assert(same_param(a.drop_last()[i], b.drop_last()[i]));
            }
        }
    }
}

/// A query text in small letters.
proof fn lemma_lower_query_text(
    sorted: Seq<params::Param>,
    hash_key: Seq<char>,
    hash_iv: Seq<char>,
)
    ensures
        text::ascii_lower(query_text(sorted, hash_key, hash_iv)) == text::ascii_lower("HashKey="@)
            + text::ascii_lower(hash_key) + text::ascii_lower(params_text(sorted))
            + text::ascii_lower("&HashIV="@) + text::ascii_lower(hash_iv),
{
    let ps = params_text(sorted);
    encoding::lemma_lower_concat("HashKey="@, hash_key);
    encoding::lemma_lower_concat("HashKey="@ + hash_key, ps);
    encoding::lemma_lower_concat("HashKey="@ + hash_key + ps, "&HashIV="@);
    encoding::lemma_lower_concat("HashKey="@ + hash_key + ps + "&HashIV="@, hash_iv);
}

/// Under one hash key and one hash IV, letter case aside, what is hashed tells
/// every parameter's name and value up to the case of ASCII letters, and
/// nothing more.
pub proof fn lemma_signed_text_tells_params(
    a: Seq<params::Param>,
    a_key: Seq<char>,
    a_iv: Seq<char>,
    b: Seq<params::Param>,
    b_key: Seq<char>,
    b_iv: Seq<char>,
)
    requires
        text::ascii_lower(a_key) == text::ascii_lower(b_key),
        text::ascii_lower(a_iv) == text::ascii_lower(b_iv),
    ensures
        signed_text(a, a_key, a_iv) == signed_text(b, b_key, b_iv) <==> same_but_for_case(
            params::sorted_params(a),
            params::sorted_params(b),
        ),
{
    let x = params::sorted_params(a);
    let y = params::sorted_params(b);
    lemma_signed_text_case(a, a_key, a_iv, b, b_key, b_iv);
    let front = text::ascii_lower("HashKey="@) + text::ascii_lower(a_key);
    let back = text::ascii_lower("&HashIV="@) + text::ascii_lower(a_iv);
    let s = text::ascii_lower(query_text(x, a_key, a_iv));
    let t = text::ascii_lower(query_text(y, b_key, b_iv));
    lemma_lower_query_text(x, a_key, a_iv);
    lemma_lower_query_text(y, b_key, b_iv);
    let ps = text::ascii_lower(params_text(x));
    let qs = text::ascii_lower(params_text(y));
    assert(s =~= front + ps + back);
    assert(t =~= front + qs + back);
    if same_but_for_case(x, y) {
        lemma_params_text_case(x, y);
    }
    if s == t {
        assert(ps =~= s.subrange(front.len() as int, s.len() - back.len()));
        assert(qs =~= t.subrange(front.len() as int, t.len() - back.len()));
        lemma_params_text_tells_case(x, y);
    }
}

/// The check value does not depend on the case of the ASCII letters in names,
/// values, the hash key or the hash IV.
pub proof fn lemma_check_mac_ignores_case(
    a: Seq<params::Param>,
    a_key: Seq<char>,
    a_iv: Seq<char>,
    b: Seq<params::Param>,
    b_key: Seq<char>,
    b_iv: Seq<char>,
)
    requires
        same_but_for_case(a, b),
        text::ascii_lower(a_key) == text::ascii_lower(b_key),
        text::ascii_lower(a_iv) == text::ascii_lower(b_iv),
    ensures
        check_mac_value(a, a_key, a_iv) == check_mac_value(b, b_key, b_iv),
{
    lemma_sorted_case(a, b);
    lemma_signed_text_tells_params(a, a_key, a_iv, b, b_key, b_iv);
}

/// The check value depends neither on the order in which names were set nor on
/// the case of ASCII letters, as long as no two names of one list differ in
/// letter case alone.
pub proof fn lemma_check_mac_ignores_order_and_case(
    a: Seq<params::Param>,
    a_key: Seq<char>,
    a_iv: Seq<char>,
    b: Seq<params::Param>,
    b_key: Seq<char>,
    b_iv: Seq<char>,
)
    requires
        a.len() == b.len(),
        forall|i: int| 0 <= i < a.len() ==> holds_same(b, #[trigger] a[i]),
        params::distinct_sort_keys(a),
        text::ascii_lower(a_key) == text::ascii_lower(b_key),
        text::ascii_lower(a_iv) == text::ascii_lower(b_iv),
    ensures
        check_mac_value(a, a_key, a_iv) == check_mac_value(b, b_key, b_iv),
{
    broadcast use vstd::seq_lib::group_to_multiset_ensures;

    let x = params::sorted_params(a);
    params::lemma_sorted_params(a);
    params::lemma_distinct_sort_keys_permuted(a, x);
    let place = |i: int| choose|j: int| 0 <= j < b.len() && #[trigger] same_param(x[i], b[j]);
    let ordered = Seq::new(x.len(), |i: int| b[place(i)]);
    assert forall|i: int| 0 <= i < x.len() implies {
        &&& #[trigger] same_param(x[i], ordered[i])
        &&& b.contains(ordered[i])
        &&& params::sort_key(ordered[i].0) == params::sort_key(x[i].0)
    } by {
        assert(x.contains(x[i]));
        assert(x.to_multiset().count(x[i]) > 0);
        assert(a.contains(x[i]));
        let k = choose|k: int| 0 <= k < a.len() && a[k] == x[i];
        assert(holds_same(b, a[k]));
        let j = choose|j: int| 0 <= j < b.len() && #[trigger] same_param(x[i], b[j]);
        assert(ordered[i] == b[j]);
        params::lemma_sort_key_ignores_case(x[i].0, ordered[i].0);
    }
    assert forall|i: int| 0 <= i < ordered.len() implies b.contains(#[trigger] ordered[i]) by {
        assert(same_param(x[i], ordered[i]));
    }
    assert(params::neighbours_in_order(ordered)) by {
        assert forall|i: int| 0 <= i < ordered.len() - 1 implies {
            &&& params::param_le(#[trigger] ordered[i], ordered[i + 1])
            &&& params::sort_key(ordered[i].0) != params::sort_key(ordered[i + 1].0)
        } by {
            assert(same_param(x[i], ordered[i]) && same_param(x[i + 1], ordered[i + 1]));
            assert(params::param_le(x[i], x[i + 1]));
            assert(params::sort_key(x[i].0) != params::sort_key(x[i + 1].0));
        }
    }
    params::lemma_signing_order(b, ordered);
    lemma_signed_text_tells_params(a, a_key, a_iv, b, b_key, b_iv);
}

/// The query text starts with `HashKey=` and the hash key, and ends in `&HashIV=`
/// and the hash IV, with the parameters between them.
pub proof fn lemma_query_text_frame(
    sorted: Seq<params::Param>,
    hash_key: Seq<char>,
    hash_iv: Seq<char>,
)
    ensures
        query_text(sorted, hash_key, hash_iv) == seq!['H', 'a', 's', 'h', 'K', 'e', 'y', '=']
            + hash_key + params_text(sorted) + seq!['&', 'H', 'a', 's', 'h', 'I', 'V', '=']
            + hash_iv,
{
    reveal_strlit("HashKey=");
    reveal_strlit("&HashIV=");
    assert("HashKey="@ =~= seq!['H', 'a', 's', 'h', 'K', 'e', 'y', '=']);
    assert("&HashIV="@ =~= seq!['&', 'H', 'a', 's', 'h', 'I', 'V', '=']);
}

/// Texts of parameters go part by part, and one parameter's text is `&`, the
/// encoded name, `=` and the encoded value.
pub proof fn lemma_params_text_parts(
    a: Seq<params::Param>,
    b: Seq<params::Param>,
    name: Seq<char>,
    value: Seq<char>,
)
    ensures
        params_text(a + b) == params_text(a) + params_text(b),
        params_text(seq![(name, value)]) == seq!['&'] + encoding::ecpay_encoded(name) + seq!['=']
            + encoding::ecpay_encoded(value),
    decreases b.len(),
{
    reveal_strlit("&");
    reveal_strlit("=");
    assert("&"@ =~= seq!['&']);
    assert("="@ =~= seq!['=']);
    let one: Seq<params::Param> = seq![(name, value)];
    assert(one.drop_last() =~= Seq::<params::Param>::empty());
    assert(params_text(one.drop_last()) =~= Seq::<char>::empty());
    assert(params_text(one) =~= param_text((name, value)));
    if b.len() == 0 {
        assert(a + b =~= a);
        assert(params_text(a + b) =~= params_text(a) + params_text(b));
    } else {
        lemma_params_text_parts(a, b.drop_last(), name, value);
        assert((a + b).drop_last() =~= a + b.drop_last());
        assert(params_text(a + b) =~= params_text(a) + params_text(b));
    }
}

/// The encoding of `=` and that of `&`.
proof fn lemma_sign_encodings()
    ensures
        encoding::ecpay_encoded(seq!['=']) == seq!['%', '3', 'D'],
        encoding::ecpay_encoded(seq!['&']) == seq!['%', '2', '6'],
{
    reveal_with_fuel(encoding::bytes_text, 2);
    assert(vstd::utf8::is_ascii_chars(seq!['=']) && vstd::utf8::is_ascii_chars(seq!['&']));
    vstd::utf8::is_ascii_chars_encode_utf8(seq!['=']);
    vstd::utf8::is_ascii_chars_encode_utf8(seq!['&']);
    let x = vstd::utf8::encode_utf8(seq!['=']);
    let y = vstd::utf8::encode_utf8(seq!['&']);
    assert(seq!['='][0] as u8 == x[0] && seq!['&'][0] as u8 == y[0]);
    assert(x.drop_first() =~= seq![] && y.drop_first() =~= seq![]);
    assert(encoding::ecpay_encoded(seq!['=']) =~= seq!['%', '3', 'D']);
    assert(encoding::ecpay_encoded(seq!['&']) =~= seq!['%', '2', '6']);
}

/// The encodings of what stands before the hash key and before the hash IV, in
/// small letters.
proof fn lemma_frame_encodings()
    ensures
        text::ascii_lower(
            encoding::ecpay_encoded(seq!['H', 'a', 's', 'h', 'K', 'e', 'y', '=']),
        ) == seq!['h', 'a', 's', 'h', 'k', 'e', 'y', '%', '3', 'd'],
        text::ascii_lower(
            encoding::ecpay_encoded(seq!['&', 'H', 'a', 's', 'h', 'I', 'V', '=']),
        ) == seq!['%', '2', '6', 'h', 'a', 's', 'h', 'i', 'v', '%', '3', 'd'],
{
    let key = seq!['H', 'a', 's', 'h', 'K', 'e', 'y'];
    let iv = seq!['H', 'a', 's', 'h', 'I', 'V'];
    lemma_sign_encodings();
    encoding::lemma_encoded_kept(key);
    encoding::lemma_encoded_kept(iv);
    encoding::lemma_encoded_concat(key, seq!['=']);
    encoding::lemma_encoded_concat(iv, seq!['=']);
    encoding::lemma_encoded_concat(seq!['&'], iv + seq!['=']);
    assert(seq!['H', 'a', 's', 'h', 'K', 'e', 'y', '='] =~= key + seq!['=']);
    assert(seq!['&', 'H', 'a', 's', 'h', 'I', 'V', '='] =~= seq!['&'] + (iv + seq!['=']));
    let small_key = seq!['h', 'a', 's', 'h', 'k', 'e', 'y', '%', '3', 'd'];
    let small_iv = seq!['%', '2', '6', 'h', 'a', 's', 'h', 'i', 'v', '%', '3', 'd'];
    assert(text::ascii_lower(key + seq!['%', '3', 'D']) =~= small_key);
    assert(text::ascii_lower(seq!['%', '2', '6'] + (iv + seq!['%', '3', 'D'])) =~= small_iv);
}

/// The text that is hashed starts with `hashkey%3d` and the encoded hash key, and
/// ends in `%26hashiv%3d` and the encoded hash IV, all of it in small letters:
/// the key stands in front and the IV behind, whatever they are and however long.
pub proof fn lemma_signed_text_frame(
    ps: Seq<params::Param>,
    hash_key: Seq<char>,
    hash_iv: Seq<char>,
)
    ensures
        signed_text(ps, hash_key, hash_iv)
            == seq!['h', 'a', 's', 'h', 'k', 'e', 'y', '%', '3', 'd'] + text::ascii_lower(
            encoding::ecpay_encoded(hash_key),
        ) + text::ascii_lower(
            encoding::ecpay_encoded(params_text(params::sorted_params(ps))),
        ) + seq!['%', '2', '6', 'h', 'a', 's', 'h', 'i', 'v', '%', '3', 'd'] + text::ascii_lower(
            encoding::ecpay_encoded(hash_iv),
        ),
{
    let front = seq!['H', 'a', 's', 'h', 'K', 'e', 'y', '='];
    let back = seq!['&', 'H', 'a', 's', 'h', 'I', 'V', '='];
    let middle = params_text(params::sorted_params(ps));
    lemma_query_text_frame(params::sorted_params(ps), hash_key, hash_iv);
    lemma_frame_encodings();
    encoding::lemma_encoded_concat(front, hash_key);
    encoding::lemma_encoded_concat(front + hash_key, middle);
    encoding::lemma_encoded_concat(front + hash_key + middle, back);
    encoding::lemma_encoded_concat(front + hash_key + middle + back, hash_iv);
    let x = encoding::ecpay_encoded(front);
    let k = encoding::ecpay_encoded(hash_key);
    let m = encoding::ecpay_encoded(middle);
    let y = encoding::ecpay_encoded(back);
    let v = encoding::ecpay_encoded(hash_iv);
    encoding::lemma_lower_concat(x, k);
    encoding::lemma_lower_concat(x + k, m);
    encoding::lemma_lower_concat(x + k + m, y);
    encoding::lemma_lower_concat(x + k + m + y, v);
}

/// The check value is the SHA-256 digest, in capital hexadecimal digits, of the
/// text that starts with `hashkey%3d` and the hash key and ends in `%26hashiv%3d`
/// and the hash IV, the two of them and the parameters encoded and in small
/// letters.
pub proof fn lemma_check_mac_value_frame(
    ps: Seq<params::Param>,
    hash_key: Seq<char>,
    hash_iv: Seq<char>,
)
    ensures
        check_mac_value(ps, hash_key, hash_iv) == digest::hex_upper(
            digest::sha256(
                vstd::utf8::encode_utf8(
                    seq!['h', 'a', 's', 'h', 'k', 'e', 'y', '%', '3', 'd'] + text::ascii_lower(
                        encoding::ecpay_encoded(hash_key),
                    ) + text::ascii_lower(
                        encoding::ecpay_encoded(params_text(params::sorted_params(ps))),
                    ) + seq!['%', '2', '6', 'h', 'a', 's', 'h', 'i', 'v', '%', '3', 'd']
                        + text::ascii_lower(encoding::ecpay_encoded(hash_iv)),
                ),
            ),
        ),
{
    lemma_signed_text_frame(ps, hash_key, hash_iv);
}

/// What [`text_to_sign`] gives has the hash key in front and the hash IV behind:
/// see [`lemma_signed_text_frame`].
pub proof fn lemma_text_to_sign(params: &ParamMap, hash_key: &str, hash_iv: &str, r: String)
    requires
        call_ensures(text_to_sign, (params, hash_key, hash_iv), r),
    ensures
        r@ == seq!['h', 'a', 's', 'h', 'k', 'e', 'y', '%', '3', 'd'] + text::ascii_lower(
            encoding::ecpay_encoded(hash_key@),
        ) + text::ascii_lower(
            encoding::ecpay_encoded(params_text(params::sorted_params(params@))),
        ) + seq!['%', '2', '6', 'h', 'a', 's', 'h', 'i', 'v', '%', '3', 'd'] + text::ascii_lower(
            encoding::ecpay_encoded(hash_iv@),
        ),
{
    lemma_signed_text_frame(params@, hash_key@, hash_iv@);
}

/// What [`compute_check_mac_value`] gives is the digest of the query text as it
/// stands: `HashKey=` and the hash key, the parameters in signing order, `&HashIV=`
/// and the hash IV, encoded, in small letters and as UTF-8 bytes. Two digits show
/// each byte of the digest.
pub proof fn lemma_compute_check_mac_value(
    params: &ParamMap,
    hash_key: &str,
    hash_iv: &str,
    r: Result<String, IntegrationError>,
)
    requires
        call_ensures(compute_check_mac_value, (params, hash_key, hash_iv), r),
    ensures
        r is Ok,
        r->Ok_0@.len() == 64,
        ({
            let hash = digest::sha256(
                vstd::utf8::encode_utf8(
                    text::ascii_lower(
                        encoding::ecpay_encoded(
                            seq!['H', 'a', 's', 'h', 'K', 'e', 'y', '='] + hash_key@
                                + params_text(params::sorted_params(params@))
                                + seq!['&', 'H', 'a', 's', 'h', 'I', 'V', '='] + hash_iv@,
                        ),
                    ),
                ),
            );
            &&& r->Ok_0@.len() == 2 * hash.len()
            &&& forall|i: int|
                0 <= i < hash.len() ==> {
                    let high = (#[trigger] hash[i]) as int / 16;
                    let low = hash[i] as int % 16;
                    &&& r->Ok_0@[2 * i] as int == high + (if high < 10 {
                        48int
                    } else {
                        55
                    })
                    &&& r->Ok_0@[2 * i + 1] as int == low + (if low < 10 {
                        48int
                    } else {
                        55
                    })
                }
        }),
{
    let sorted = params::sorted_params(params@);
    lemma_query_text_frame(sorted, hash_key@, hash_iv@);
    let hash = digest::sha256(
        vstd::utf8::encode_utf8(
            text::ascii_lower(
                encoding::ecpay_encoded(query_text(sorted, hash_key@, hash_iv@)),
            ),
        ),
    );
    assert(r->Ok_0@ == digest::hex_upper(hash));
    digest::lemma_hex_upper_codes(hash);
}

/// The check value is the digest of what [`text_to_sign`] gives of the same
/// parameters, hash key and hash IV.
pub proof fn lemma_check_value_of_text(
    params: &ParamMap,
    hash_key: &str,
    hash_iv: &str,
    signed: String,
    r: Result<String, IntegrationError>,
)
    requires
        call_ensures(text_to_sign, (params, hash_key, hash_iv), signed),
        call_ensures(compute_check_mac_value, (params, hash_key, hash_iv), r),
    ensures
        r is Ok,
        r->Ok_0@ == digest::hex_upper(digest::sha256(vstd::utf8::encode_utf8(signed@))),
{
}

} // verus!
