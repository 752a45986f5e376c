//! The form encoding of texts, as ECPay wants it.

use vstd::prelude::*;

use crate::text;

verus! {

/// The capital hexadecimal digit for `d`, from 0 to 15.
pub open spec fn hex_digit_upper(d: int) -> char {
    if d < 10 {
        ('0' as int + d) as char
    } else {
        ('A' as int + d - 10) as char
    }
}

/// The bytes that the `application/x-www-form-urlencoded` serializer keeps.
pub open spec fn form_keeps(b: u8) -> bool {
    ||| 'a' as u8 <= b <= 'z' as u8
    ||| 'A' as u8 <= b <= 'Z' as u8
    ||| '0' as u8 <= b <= '9' as u8
    ||| b == '*' as u8
    ||| b == '-' as u8
    ||| b == '.' as u8
    ||| b == '_' as u8
}

/// The text that stands for one byte: the byte's own character where `kept`
/// is true, `+` for a space, and a percent sign with two hexadecimal digits
/// for any other byte.
pub open spec fn byte_text(b: u8, kept: bool) -> Seq<char> {
    if kept {
        seq![b as char]
    } else if b == ' ' as u8 {
        seq!['+']
    } else {
        escape(b)
    }
}

/// A percent sign and the two capital hexadecimal digits of a byte.
pub open spec fn escape(b: u8) -> Seq<char> {
    seq!['%', hex_digit_upper(b as int / 16), hex_digit_upper(b as int % 16)]
}

/// Bytes written one after the other, those that `keeps` accepts as they are.
pub open spec fn bytes_text(bytes: Seq<u8>, keeps: spec_fn(u8) -> bool) -> Seq<char>
    decreases bytes.len(),
{
    if bytes.len() == 0 {
        seq![]
    } else {
        byte_text(bytes[0], keeps(bytes[0])) + bytes_text(bytes.drop_first(), keeps)
    }
}

/// Replacing the escape of `c` by `c` itself adds `c` to the bytes kept.
proof fn lemma_keep_one_more(
    bytes: Seq<u8>,
    keeps: spec_fn(u8) -> bool,
    more: spec_fn(u8) -> bool,
    c: u8,
)
    requires
        forall|b: u8| #[trigger] more(b) <==> keeps(b) || b == c,
        !keeps('%' as u8),
        c != '%' as u8,
        c != ' ' as u8,
    ensures
        text::replaced(bytes_text(bytes, keeps), escape(c), seq![c as char]) == bytes_text(
            bytes,
            more,
        ),
    decreases bytes.len(),
{
    let s = bytes_text(bytes, keeps);
    let from = escape(c);
    let to = seq![c as char];
    if bytes.len() > 0 {
        let b = bytes[0];
        let rest = bytes_text(bytes.drop_first(), keeps);
        lemma_keep_one_more(bytes.drop_first(), keeps, more, c);
        assert(more(b) <==> keeps(b) || b == c);
        if !keeps(b) && b != ' ' as u8 {
            assert(s =~= escape(b) + rest);
            if b == c {
                assert(from.is_prefix_of(s));
                assert(s.skip(3) =~= rest);
            } else {
                lemma_escape_injective(b, c);
                assert(s[1] == escape(b)[1] && s[2] == escape(b)[2]);
                assert(!from.is_prefix_of(s)) by {
                    if from.is_prefix_of(s) {
                        assert(from[1] == s[1] && from[2] == s[2]);
                        assert(from =~= escape(b));
                    }
                }
                let s1 = s.drop_first();
                let s2 = s1.drop_first();
                assert(s1[0] == s[1]);
                assert(s2[0] == s[2]);
                assert(s1[0] != '%' && s2[0] != '%');
                assert(from[0] == '%');
                assert(!from.is_prefix_of(s1));
                assert(!from.is_prefix_of(s2));
                assert(s2.drop_first() =~= rest);
                reveal_with_fuel(text::replaced, 4);
                assert(text::replaced(s, from, to) =~= escape(b) + text::replaced(rest, from, to));
            }
        } else {
            assert(s =~= seq![s[0]] + rest);
            assert(s.drop_first() =~= rest);
            assert(s[0] != '%');
            assert(from[0] == '%');
            assert(!from.is_prefix_of(s));
        }
    }
}

/// Distinct bytes have distinct escapes.
proof fn lemma_escape_injective(a: u8, b: u8)
    ensures
        escape(a) == escape(b) ==> a == b,
{
    if escape(a) == escape(b) {
        assert(escape(a)[1] == escape(b)[1]);
        assert(escape(a)[2] == escape(b)[2]);
    }
}

/// The bytes that ECPay's URL encoding keeps.
pub open spec fn ecpay_keeps(b: u8) -> bool {
    ||| form_keeps(b)
    ||| b == '!' as u8
    ||| b == '(' as u8
    ||| b == ')' as u8
    ||| b == '~' as u8
}

/// The `application/x-www-form-urlencoded` form of some bytes.
pub open spec fn form_encoded(bytes: Seq<u8>) -> Seq<char> {
    bytes_text(bytes, |b: u8| form_keeps(b))
}

/// ECPay's URL encoding of a text: letters, digits and `-_.!*()~` stay, a
/// space becomes `+`, and every other byte of the text's UTF-8 form becomes a
/// percent sign and two capital hexadecimal digits.
pub open spec fn ecpay_encoded(s: Seq<char>) -> Seq<char> {
    bytes_text(vstd::utf8::encode_utf8(s), |b: u8| ecpay_keeps(b))
}

/// `url::form_urlencoded::byte_serialize`, its pieces joined to one text: each
/// byte in turn is kept, written as `+` where it is a space, or written as a
/// percent escape with capital digits.
#[verifier::external_body]
fn byte_serialize(bytes: &[u8]) -> (r: String)
    ensures
        r@ == form_encoded(bytes@),
{
    url::form_urlencoded::byte_serialize(bytes).collect::<String>()
}

/// The three characters that escape each byte which ECPay wants unescaped.
proof fn lemma_escape_texts()
    ensures
        "%2D"@ == escape('-' as u8),
        "%5F"@ == escape('_' as u8),
        "%2E"@ == escape('.' as u8),
        "%21"@ == escape('!' as u8),
        "%2A"@ == escape('*' as u8),
        "%28"@ == escape('(' as u8),
        "%29"@ == escape(')' as u8),
        "%7E"@ == escape('~' as u8),
{
    reveal_strlit("%2D");
    reveal_strlit("%5F");
    reveal_strlit("%2E");
    reveal_strlit("%21");
    reveal_strlit("%2A");
    reveal_strlit("%28");
    reveal_strlit("%29");
    reveal_strlit("%7E");
    assert("%2D"@ =~= escape('-' as u8));
    assert("%5F"@ =~= escape('_' as u8));
    assert("%2E"@ =~= escape('.' as u8));
    assert("%21"@ =~= escape('!' as u8));
    assert("%2A"@ =~= escape('*' as u8));
    assert("%28"@ =~= escape('(' as u8));
    assert("%29"@ =~= escape(')' as u8));
    assert("%7E"@ =~= escape('~' as u8));
}

/// The characters that ECPay wants unescaped, each as a text of its own.
proof fn lemma_kept_texts()
    ensures
        "-"@ == seq!['-'],
        "_"@ == seq!['_'],
        "."@ == seq!['.'],
        "!"@ == seq!['!'],
        "*"@ == seq!['*'],
        "("@ == seq!['('],
        ")"@ == seq![')'],
        "~"@ == seq!['~'],
{
    reveal_strlit("-");
    reveal_strlit("_");
    reveal_strlit(".");
    reveal_strlit("!");
    reveal_strlit("*");
    reveal_strlit("(");
    reveal_strlit(")");
    reveal_strlit("~");
    assert("-"@ =~= seq!['-']);
    assert("_"@ =~= seq!['_']);
    assert("."@ =~= seq!['.']);
    assert("!"@ =~= seq!['!']);
    assert("*"@ =~= seq!['*']);
    assert("("@ =~= seq!['(']);
    assert(")"@ =~= seq![')']);
    assert("~"@ =~= seq!['~']);
}

/// ECPay's URL encoding of a parameter's name or value.
pub fn ecpay_url_encode(value: &str) -> (r: String)
    ensures
        r@ == ecpay_encoded(value@),
{
    proof {
        lemma_escape_texts();
        lemma_kept_texts();
    }
    let serialized = byte_serialize(value.as_bytes());
    let dash = text::replace_text(serialized.as_str(), "%2D", "-");
    let underscore = text::replace_text(dash.as_str(), "%5F", "_");
    let dot = text::replace_text(underscore.as_str(), "%2E", ".");
    let exclamation = text::replace_text(dot.as_str(), "%21", "!");
    let asterisk = text::replace_text(exclamation.as_str(), "%2A", "*");
    let opening = text::replace_text(asterisk.as_str(), "%28", "(");
    let closing = text::replace_text(opening.as_str(), "%29", ")");
    let tilde = text::replace_text(closing.as_str(), "%7E", "~");
    proof {
        let bytes = vstd::utf8::encode_utf8(value@);
        let k0 = |b: u8| form_keeps(b);
        let k1 = |b: u8| k0(b) || b == '-' as u8;
        let k2 = |b: u8| k1(b) || b == '_' as u8;
        let k3 = |b: u8| k2(b) || b == '.' as u8;
        let k4 = |b: u8| k3(b) || b == '!' as u8;
        let k5 = |b: u8| k4(b) || b == '*' as u8;
        let k6 = |b: u8| k5(b) || b == '(' as u8;
        let k7 = |b: u8| k6(b) || b == ')' as u8;
        let k8 = |b: u8| k7(b) || b == '~' as u8;
        lemma_keep_one_more(bytes, k0, k1, '-' as u8);
        lemma_keep_one_more(bytes, k1, k2, '_' as u8);
        lemma_keep_one_more(bytes, k2, k3, '.' as u8);
        lemma_keep_one_more(bytes, k3, k4, '!' as u8);
        lemma_keep_one_more(bytes, k4, k5, '*' as u8);
        lemma_keep_one_more(bytes, k5, k6, '(' as u8);
        lemma_keep_one_more(bytes, k6, k7, ')' as u8);
        lemma_keep_one_more(bytes, k7, k8, '~' as u8);
        assert(k8 =~= |b: u8| ecpay_keeps(b));
    }
    tilde
}

/// ECPay's URL encoding of a whole query text.
pub fn ecpay_url_encode_full(value: &str) -> (r: String)
    ensures
        r@ == ecpay_encoded(value@),
{
    ecpay_url_encode(value)
}

/// Bytes written out are ASCII where only ASCII bytes are kept.
proof fn lemma_bytes_text_is_ascii(bytes: Seq<u8>, keeps: spec_fn(u8) -> bool)
    requires
        forall|b: u8| #[trigger] keeps(b) ==> b < 128,
    ensures
        vstd::utf8::is_ascii_chars(bytes_text(bytes, keeps)),
    decreases bytes.len(),
{
    if bytes.len() > 0 {
        let b = bytes[0];
        let front = byte_text(b, keeps(b));
        lemma_bytes_text_is_ascii(bytes.drop_first(), keeps);
        assert(vstd::utf8::is_ascii_chars(front));
    }
}

/// The encoding of any text is ASCII.
pub proof fn lemma_encoded_is_ascii(s: Seq<char>)
    ensures
        vstd::utf8::is_ascii_chars(ecpay_encoded(s)),
{
    lemma_bytes_text_is_ascii(vstd::utf8::encode_utf8(s), |b: u8| ecpay_keeps(b));
}

/// UTF-8 encodes a text character by character.
pub proof fn lemma_utf8_concat(a: Seq<char>, b: Seq<char>)
    ensures
        vstd::utf8::encode_utf8(a + b) == vstd::utf8::encode_utf8(a) + vstd::utf8::encode_utf8(b),
    decreases a.len(),
{
    if a.len() == 0 {
        assert(a + b =~= b);
    } else {
        lemma_utf8_concat(a.drop_first(), b);
        assert((a + b).drop_first() =~= a.drop_first() + b);
    }
}

/// Bytes are written one by one.
proof fn lemma_bytes_text_concat(a: Seq<u8>, b: Seq<u8>, keeps: spec_fn(u8) -> bool)
    ensures
        bytes_text(a + b, keeps) == bytes_text(a, keeps) + bytes_text(b, keeps),
    decreases a.len(),
{
    if a.len() == 0 {
        assert(a + b =~= b);
    } else {
        lemma_bytes_text_concat(a.drop_first(), b, keeps);
        assert((a + b).drop_first() =~= a.drop_first() + b);
    }
}

/// The encoding of a text in two parts is the encodings of the parts.
pub proof fn lemma_encoded_concat(a: Seq<char>, b: Seq<char>)
    ensures
        ecpay_encoded(a + b) == ecpay_encoded(a) + ecpay_encoded(b),
{
    lemma_utf8_concat(a, b);
    lemma_bytes_text_concat(
        vstd::utf8::encode_utf8(a),
        vstd::utf8::encode_utf8(b),
        |c: u8| ecpay_keeps(c),
    );
}

/// The characters that an encoding is made of: those kept, `+` and `%`.
pub open spec fn in_alphabet(c: char) -> bool {
    c == '+' || c == '%' || (c <= '\u{7f}' && ecpay_keeps(c as u8))
}

/// A text is made of the encoding's characters alone.
pub open spec fn all_in_alphabet(s: Seq<char>) -> bool {
    forall|i: int| 0 <= i < s.len() ==> in_alphabet(#[trigger] s[i])
}

/// Bytes are written in the encoding's alphabet.
proof fn lemma_bytes_text_alphabet(bytes: Seq<u8>)
    ensures
        all_in_alphabet(bytes_text(bytes, |b: u8| ecpay_keeps(b))),
    decreases bytes.len(),
{
    let keeps = |b: u8| ecpay_keeps(b);
    let s = bytes_text(bytes, keeps);
    if bytes.len() > 0 {
        let rest = bytes_text(bytes.drop_first(), keeps);
        let front = byte_text(bytes[0], keeps(bytes[0]));
        lemma_bytes_text_alphabet(bytes.drop_first());
        assert forall|i: int| 0 <= i < s.len() implies in_alphabet(#[trigger] s[i]) by {
            if i < front.len() {
                assert(s[i] == front[i]);
            } else {
                assert(s[i] == rest[i - front.len()]);
            }
        }
    }
}

/// The encoding of any text is letters, digits and `-_.!*()~+%` alone, so that
/// neither `&` nor `=` occurs in it.
pub proof fn lemma_encoded_alphabet(s: Seq<char>)
    ensures
        all_in_alphabet(ecpay_encoded(s)),
{
    lemma_bytes_text_alphabet(vstd::utf8::encode_utf8(s));
}

/// A text of letters, digits and `-_.!*()~` alone is its own encoding.
pub proof fn lemma_encoded_kept(s: Seq<char>)
    requires
        vstd::utf8::is_ascii_chars(s),
        forall|i: int| 0 <= i < s.len() ==> ecpay_keeps(#[trigger] s[i] as u8),
    ensures
        ecpay_encoded(s) == s,
    decreases s.len(),
{
    if s.len() > 0 {
        let rest = s.drop_first();
        assert forall|i: int| 0 <= i < rest.len() implies '\0' <= #[trigger] rest[i] <= '\u{7f}'
            && ecpay_keeps(rest[i] as u8) by {
            assert(rest[i] == s[i + 1]);
        }
        lemma_encoded_kept(rest);
        lemma_scalar_bytes(s[0]);
        let bytes = vstd::utf8::encode_utf8(s);
        assert(bytes.drop_first() =~= vstd::utf8::encode_utf8(rest));
        assert(s =~= seq![s[0]] + rest);
    }
}

/// A byte with an ASCII capital letter made small.
pub open spec fn lower_byte(b: u8) -> u8 {
    if 'A' as u8 <= b <= 'Z' as u8 {
        (b + 32) as u8
    } else {
        b
    }
}

/// Bytes with every ASCII capital letter made small.
pub open spec fn lower_bytes(bytes: Seq<u8>) -> Seq<u8> {
    bytes.map_values(|b: u8| lower_byte(b))
}

/// Small letters of two texts are the small letters of both.
pub(crate) proof fn lemma_lower_concat(a: Seq<char>, b: Seq<char>)
    ensures
        text::ascii_lower(a + b) == text::ascii_lower(a) + text::ascii_lower(b),
{
    assert(text::ascii_lower(a + b) =~= text::ascii_lower(a) + text::ascii_lower(b));
}

/// What one byte is written as, in small letters, tells the byte up to letter
/// case and where its text ends.
proof fn lemma_byte_text_case(a: u8, b: u8)
    ensures
        lower_byte(a) == lower_byte(b) <==> text::ascii_lower(byte_text(a, ecpay_keeps(a)))
            == text::ascii_lower(byte_text(b, ecpay_keeps(b))),
        lower_byte(a) != lower_byte(b) ==> !text::ascii_lower(
            byte_text(a, ecpay_keeps(a)),
        ).is_prefix_of(text::ascii_lower(byte_text(b, ecpay_keeps(b)))),
{
    let x = text::ascii_lower(byte_text(a, ecpay_keeps(a)));
    let y = text::ascii_lower(byte_text(b, ecpay_keeps(b)));
    if lower_byte(a) == lower_byte(b) {
        if a != b {
            assert(ecpay_keeps(a) && ecpay_keeps(b));
            assert(x =~= y);
        }
    } else {
        if x.is_prefix_of(y) {
            assert(x[0] == y[0]);
            if !ecpay_keeps(a) && !ecpay_keeps(b) && a != ' ' as u8 && b != ' ' as u8 {
                assert(x[1] == y[1] && x[2] == y[2]);
                lemma_lower_hex_digit(a as int / 16, b as int / 16);
                lemma_lower_hex_digit(a as int % 16, b as int % 16);
                assert(a == b);
            }
            assert(false);
        }
        if x == y {
            assert(x.is_prefix_of(y));
        }
    }
}

/// Capital hexadecimal digits differ in more than letter case.
proof fn lemma_lower_hex_digit(c: int, d: int)
    requires
        0 <= c < 16,
        0 <= d < 16,
        text::ascii_lower_char(hex_digit_upper(c)) == text::ascii_lower_char(hex_digit_upper(d)),
    ensures
        c == d,
{
}

/// Bytes are written alike up to letter case exactly where the bytes are alike
/// up to letter case.
proof fn lemma_bytes_text_case(a: Seq<u8>, b: Seq<u8>)
    ensures
        lower_bytes(a) == lower_bytes(b) <==> text::ascii_lower(
            bytes_text(a, |c: u8| ecpay_keeps(c)),
        ) == text::ascii_lower(bytes_text(b, |c: u8| ecpay_keeps(c))),
    decreases a.len(),
{
    let keeps = |c: u8| ecpay_keeps(c);
    let s = text::ascii_lower(bytes_text(a, keeps));
    let t = text::ascii_lower(bytes_text(b, keeps));
    if a.len() == 0 || b.len() == 0 {
        if lower_bytes(a) == lower_bytes(b) {
            assert(a.len() == lower_bytes(a).len() && b.len() == lower_bytes(b).len());
            assert(a =~= b);
        }
        if s == t && a.len() > 0 {
            assert(s.len() > 0);
        }
        if s == t && b.len() > 0 {
            assert(t.len() > 0);
        }
        if s == t {
            assert(lower_bytes(a) =~= lower_bytes(b));
        }
    } else {
        let x = text::ascii_lower(byte_text(a[0], keeps(a[0])));
        let y = text::ascii_lower(byte_text(b[0], keeps(b[0])));
        let s1 = text::ascii_lower(bytes_text(a.drop_first(), keeps));
        let t1 = text::ascii_lower(bytes_text(b.drop_first(), keeps));
        lemma_lower_concat(byte_text(a[0], keeps(a[0])), bytes_text(a.drop_first(), keeps));
        lemma_lower_concat(byte_text(b[0], keeps(b[0])), bytes_text(b.drop_first(), keeps));
        lemma_byte_text_case(a[0], b[0]);
        lemma_byte_text_case(b[0], a[0]);
        lemma_bytes_text_case(a.drop_first(), b.drop_first());
        assert(lower_bytes(a) =~= seq![lower_byte(a[0])] + lower_bytes(a.drop_first()));
        assert(lower_bytes(b) =~= seq![lower_byte(b[0])] + lower_bytes(b.drop_first()));
        if lower_bytes(a) == lower_bytes(b) {
            assert(lower_bytes(a)[0] == lower_bytes(b)[0]);
            assert(lower_bytes(a).drop_first() =~= lower_bytes(a.drop_first()));
            assert(lower_bytes(b).drop_first() =~= lower_bytes(b.drop_first()));
        }
        if s == t {
            if x.len() <= y.len() {
                assert forall|i: int| 0 <= i < x.len() implies x[i] == y[i] by {
                    assert(x[i] == s[i] && y[i] == t[i]);
                }
                assert(x.is_prefix_of(y));
            } else {
                assert forall|i: int| 0 <= i < y.len() implies x[i] == y[i] by {
                    assert(x[i] == s[i] && y[i] == t[i]);
                }
                assert(y.is_prefix_of(x));
            }
            assert(x == y);
            assert(s.skip(x.len() as int) =~= s1);
            assert(t.skip(y.len() as int) =~= t1);
        }
    }
}

/// UTF-8 bytes of other than ASCII characters are no ASCII bytes.
proof fn lemma_scalar_bytes(c: char)
    ensures
        c <= '\u{7f}' ==> vstd::utf8::encode_scalar(c as u32) == seq![c as u8],
        c > '\u{7f}' ==> forall|i: int|
            0 <= i < vstd::utf8::encode_scalar(c as u32).len()
                ==> #[trigger] vstd::utf8::encode_scalar(c as u32)[i] >= 128,
{
    let u = c as u32;
    assert(u <= 0x7f ==> (u & 0x7F) as u8 == u as u8) by (bit_vector);
    assert(0xC0u8 | ((u >> 6) & 0x1F) as u8 >= 128) by (bit_vector);
    assert(0xE0u8 | ((u >> 12) & 0x0F) as u8 >= 128) by (bit_vector);
    assert(0xF0u8 | ((u >> 18) & 0x7) as u8 >= 128) by (bit_vector);
    assert(0x80u8 | (u & 0x3F) as u8 >= 128) by (bit_vector);
    assert(0x80u8 | ((u >> 6) & 0x3F) as u8 >= 128) by (bit_vector);
    assert(0x80u8 | ((u >> 12) & 0x3F) as u8 >= 128) by (bit_vector);
}

/// Making letters small and taking the UTF-8 bytes can change places.
proof fn lemma_utf8_lower(s: Seq<char>)
    ensures
        vstd::utf8::encode_utf8(text::ascii_lower(s)) == lower_bytes(vstd::utf8::encode_utf8(s)),
    decreases s.len(),
{
    let low = text::ascii_lower(s);
    if s.len() == 0 {
        assert(vstd::utf8::encode_utf8(low) =~= lower_bytes(vstd::utf8::encode_utf8(s)));
    } else {
        let c = s[0];
        let rest = s.drop_first();
        lemma_utf8_lower(rest);
        assert(low.drop_first() =~= text::ascii_lower(rest));
        lemma_scalar_bytes(c);
        lemma_scalar_bytes(low[0]);
        assert(vstd::utf8::encode_scalar(low[0] as u32) =~= lower_bytes(
            vstd::utf8::encode_scalar(c as u32),
        ));
        assert(lower_bytes(vstd::utf8::encode_utf8(s)) =~= lower_bytes(
            vstd::utf8::encode_scalar(c as u32),
        ) + lower_bytes(vstd::utf8::encode_utf8(rest)));
    }
}

/// Encodings are alike up to the case of ASCII letters exactly where the texts
/// are.
pub proof fn lemma_encoded_case(s: Seq<char>, t: Seq<char>)
    ensures
        text::ascii_lower(s) == text::ascii_lower(t) <==> text::ascii_lower(ecpay_encoded(s))
            == text::ascii_lower(ecpay_encoded(t)),
{
    broadcast use vstd::utf8::encode_utf8_decode_utf8;

    lemma_utf8_lower(s);
    lemma_utf8_lower(t);
    lemma_bytes_text_case(vstd::utf8::encode_utf8(s), vstd::utf8::encode_utf8(t));
    let a = vstd::utf8::encode_utf8(text::ascii_lower(s));
    let b = vstd::utf8::encode_utf8(text::ascii_lower(t));
    if a == b {
        assert(vstd::utf8::decode_utf8(a) == text::ascii_lower(s));
        assert(vstd::utf8::decode_utf8(b) == text::ascii_lower(t));
    }
}

/// Distinct texts have distinct encodings.
pub proof fn lemma_encoded_injective(s: Seq<char>, t: Seq<char>)
    requires
        ecpay_encoded(s) == ecpay_encoded(t),
    ensures
        s == t,
{
    broadcast use vstd::utf8::encode_utf8_decode_utf8;

    let a = vstd::utf8::encode_utf8(s);
    let b = vstd::utf8::encode_utf8(t);
    lemma_bytes_text_injective(a, b);
    assert(vstd::utf8::decode_utf8(a) == s);
    assert(vstd::utf8::decode_utf8(b) == t);
}

/// Distinct bytes are written differently.
proof fn lemma_bytes_text_injective(a: Seq<u8>, b: Seq<u8>)
    requires
        bytes_text(a, |c: u8| ecpay_keeps(c)) == bytes_text(b, |c: u8| ecpay_keeps(c)),
    ensures
        a == b,
    decreases a.len(),
{
    let keeps = |c: u8| ecpay_keeps(c);
    let s = bytes_text(a, keeps);
    let t = bytes_text(b, keeps);
    if a.len() == 0 || b.len() == 0 {
        if a.len() > 0 {
            assert(s.len() > 0);
        }
        if b.len() > 0 {
            assert(t.len() > 0);
        }
        assert(a =~= b);
    } else {
        let x = byte_text(a[0], keeps(a[0]));
        let y = byte_text(b[0], keeps(b[0]));
        assert(x[0] == s[0] && y[0] == t[0]);
        if x[0] == '%' {
            assert(!ecpay_keeps('%' as u8));
            assert(x =~= escape(a[0]) && y =~= escape(b[0]));
            assert(x[1] == s[1] && x[2] == s[2] && y[1] == t[1] && y[2] == t[2]);
            assert(escape(a[0]) =~= escape(b[0]));
            lemma_escape_injective(a[0], b[0]);
        }
        assert(a[0] == b[0]);
        assert(s.skip(x.len() as int) =~= bytes_text(a.drop_first(), keeps));
        assert(t.skip(y.len() as int) =~= bytes_text(b.drop_first(), keeps));
        lemma_bytes_text_injective(a.drop_first(), b.drop_first());
        assert(a =~= seq![a[0]] + a.drop_first());
        assert(b =~= seq![b[0]] + b.drop_first());
    }
}

/// A character's encoding, by its code. A letter, a digit and each of `-_.!*()~`
/// stays; a space is `+`; of any other character each UTF-8 byte is a percent
/// sign and two capital hexadecimal digits. With [`lemma_encoded_concat`] this
/// tells the encoding of every text.
pub proof fn lemma_encoded_char(c: char)
    ensures
        ({
            let code = c as int;
            let e = ecpay_encoded(seq![c]);
            let bytes = vstd::utf8::encode_utf8(seq![c]);
            if 97 <= code <= 122 || 65 <= code <= 90 || 48 <= code <= 57 || code == 45 || code == 95
                || code == 46 || code == 33 || code == 42 || code == 40 || code == 41 || code
                == 126 {
                e == seq![c]
            } else if code == 32 {
                e == seq!['+']
            } else {
                &&& e.len() == 3 * bytes.len()
                &&& forall|i: int|
                    0 <= i < bytes.len() ==> {
                        let high = (#[trigger] bytes[i]) as int / 16;
                        let low = bytes[i] as int % 16;
                        &&& e[3 * i] == '%'
                        &&& e[3 * i + 1] as int == high + (if high < 10 {
                            48int
                        } else {
                            55
                        })
                        &&& e[3 * i + 2] as int == low + (if low < 10 {
                            48int
                        } else {
                            55
                        })
                    }
            }
        }),
{
    let bytes = vstd::utf8::encode_utf8(seq![c]);
    lemma_scalar_bytes(c);
    assert(seq![c].drop_first() =~= seq![]);
    reveal_with_fuel(vstd::utf8::encode_utf8, 2);
    assert(bytes =~= vstd::utf8::encode_scalar(c as u32));
    if c <= '\u{7f}' {
        assert(bytes =~= seq![c as u8]);
        assert(bytes.drop_first() =~= seq![]);
        reveal_with_fuel(bytes_text, 2);
        assert(ecpay_encoded(seq![c]) =~= byte_text(c as u8, ecpay_keeps(c as u8)));
    } else {
        assert forall|i: int| 0 <= i < bytes.len() implies !ecpay_keeps(#[trigger] bytes[i])
            && bytes[i] != 32 by {
            assert(vstd::utf8::encode_scalar(c as u32)[i] >= 128);
        }
    }
    let keeps = |b: u8| ecpay_keeps(b);
    let e = ecpay_encoded(seq![c]);
    if forall|i: int| 0 <= i < bytes.len() ==> !keeps(#[trigger] bytes[i]) && bytes[i] != 32 {
        lemma_all_escaped(bytes, keeps);
        assert forall|i: int| 0 <= i < bytes.len() implies {
            &&& e[3 * i] == '%'
            &&& e[3 * i + 1] == hex_digit_upper((#[trigger] bytes[i]) as int / 16)
            &&& e[3 * i + 2] == hex_digit_upper(bytes[i] as int % 16)
        } by {
            let part = e.subrange(3 * i, 3 * i + 3);
            assert(part == escape(bytes[i]));
            assert(part[0] == e[3 * i] && part[1] == e[3 * i + 1] && part[2] == e[3 * i + 2]);
        }
    }
}

/// Bytes of which none is kept and none is a space are all escaped.
proof fn lemma_all_escaped(bytes: Seq<u8>, keeps: spec_fn(u8) -> bool)
    requires
        forall|i: int| 0 <= i < bytes.len() ==> !keeps(#[trigger] bytes[i]) && bytes[i] != 32,
    ensures
        bytes_text(bytes, keeps).len() == 3 * bytes.len(),
        forall|i: int|
            0 <= i < bytes.len() ==> bytes_text(bytes, keeps).subrange(3 * i, 3 * i + 3) == escape(
                #[trigger] bytes[i],
            ),
    decreases bytes.len(),
{
    if bytes.len() > 0 {
        let rest = bytes.drop_first();
        let e = bytes_text(bytes, keeps);
        let e1 = bytes_text(rest, keeps);
        assert forall|i: int| 0 <= i < rest.len() implies !keeps(#[trigger] rest[i]) && rest[i]
            != 32 by {
            assert(rest[i] == bytes[i + 1]);
        }
        lemma_all_escaped(rest, keeps);
        assert(e =~= escape(bytes[0]) + e1);
        assert forall|i: int| 0 <= i < bytes.len() implies e.subrange(3 * i, 3 * i + 3) == escape(
            #[trigger] bytes[i],
        ) by {
            if i == 0 {
                assert(e.subrange(0, 3) =~= escape(bytes[0]));
            } else {
                assert(rest[i - 1] == bytes[i]);
                assert(e.subrange(3 * i, 3 * i + 3) =~= e1.subrange(
                    3 * (i - 1),
                    3 * (i - 1) + 3,
                ));
            }
        }
    }
}

/// [`ecpay_url_encode`] goes part by part: what it gives of two texts, one behind
/// the other, is what it gives of the first and what it gives of the second.
pub proof fn lemma_url_encode_parts(a: &str, x: String, b: &str, y: String, ab: &str, xy: String)
    requires
        call_ensures(ecpay_url_encode, (a,), x),
        call_ensures(ecpay_url_encode, (b,), y),
        call_ensures(ecpay_url_encode, (ab,), xy),
        ab@ == a@ + b@,
    ensures
        xy@ == x@ + y@,
{
    lemma_encoded_concat(a@, b@);
}

/// Both encoders give the same of every text, and of a text of one character what
/// [`lemma_encoded_char`] tells.
pub proof fn lemma_encoders_agree(value: &str, part: String, whole: String)
    requires
        call_ensures(ecpay_url_encode, (value,), part),
        call_ensures(ecpay_url_encode_full, (value,), whole),
    ensures
        part@ == whole@,
        part@ == ecpay_encoded(value@),
{
}

} // verus!
