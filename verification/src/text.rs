//! Text operations shared by the connector: letter case, substring
//! replacement and decimal numbers.

use vstd::prelude::*;

verus! {

/// A character with an ASCII capital letter replaced by its small letter.
pub open spec fn ascii_lower_char(c: char) -> char {
    if 'A' <= c && c <= 'Z' {
        (c as int + 32) as char
    } else {
        c
    }
}

/// A character with an ASCII small letter replaced by its capital letter.
pub open spec fn ascii_upper_char(c: char) -> char {
    if 'a' <= c && c <= 'z' {
        (c as int - 32) as char
    } else {
        c
    }
}

/// A text with every ASCII capital letter made small.
pub open spec fn ascii_lower(s: Seq<char>) -> Seq<char> {
    s.map_values(|c: char| ascii_lower_char(c))
}

/// A text with every ASCII small letter made a capital.
pub open spec fn ascii_upper(s: Seq<char>) -> Seq<char> {
    s.map_values(|c: char| ascii_upper_char(c))
}

/// The Unicode lowercase mapping of a text, as `str::to_lowercase` computes it.
pub uninterp spec fn lowercase(s: Seq<char>) -> Seq<char>;

/// The Unicode uppercase mapping of a text, as `str::to_uppercase` computes it.
pub uninterp spec fn uppercase(s: Seq<char>) -> Seq<char>;

/// `str::to_lowercase`: the result is a function of the text, and of a text
/// that is all ASCII it changes the letters `A` to `Z` alone. In any text it
/// does not tell an ASCII capital letter from the small one: each maps to the
/// small letter, and both are cased letters to Unicode, which is all that the
/// one rule on a character's surroundings, that of the final sigma, asks of
/// them. What else it makes of other texts is left to the Unicode tables behind
/// [`lowercase`].
pub assume_specification[ str::to_lowercase ](s: &str) -> (r: String)
    ensures
        r@ == lowercase(s@),
        r@ == lowercase(ascii_lower(s@)),
        vstd::utf8::is_ascii_chars(s@) ==> r@ == ascii_lower(s@),
;

/// `str::to_uppercase`: the result is a function of the text, and of a text
/// that is all ASCII it changes the letters `a` to `z` alone. What it makes of
/// other texts is left to the Unicode tables behind [`uppercase`].
pub assume_specification[ str::to_uppercase ](s: &str) -> (r: String)
    ensures
        r@ == uppercase(s@),
        vstd::utf8::is_ascii_chars(s@) ==> r@ == ascii_upper(s@),
;

/// A text in small letters: the ASCII letters first, and the rest as Unicode has
/// it.
pub open spec fn lowered(s: Seq<char>) -> Seq<char> {
    if vstd::utf8::is_ascii_chars(s) {
        ascii_lower(s)
    } else {
        lowercase(ascii_lower(s))
    }
}

/// Texts that differ in the case of ASCII letters alone are the same in small
/// letters.
pub proof fn lemma_lowered_ignores_case(s: Seq<char>, t: Seq<char>)
    requires
        ascii_lower(s) == ascii_lower(t),
    ensures
        lowered(s) == lowered(t),
{
    lemma_lower_is_ascii(s);
    lemma_lower_is_ascii(t);
}

/// Small letters are ASCII where the text is.
proof fn lemma_lower_is_ascii(s: Seq<char>)
    ensures
        vstd::utf8::is_ascii_chars(ascii_lower(s)) <==> vstd::utf8::is_ascii_chars(s),
{
    let low = ascii_lower(s);
    assert(low.len() == s.len());
    if vstd::utf8::is_ascii_chars(low) {
        assert forall|i: int| 0 <= i < s.len() implies '\0' <= #[trigger] s[i] <= '\u{7f}' by {
            assert('\0' <= low[i] <= '\u{7f}');
        }
    }
    if vstd::utf8::is_ascii_chars(s) {
        assert forall|i: int| 0 <= i < low.len() implies '\0' <= #[trigger] low[i] <= '\u{7f}' by {
            assert('\0' <= s[i] <= '\u{7f}');
        }
    }
}

/// The text `s` with every match of `from` replaced by `to`, the matches being
/// found from left to right without overlap.
pub open spec fn replaced(s: Seq<char>, from: Seq<char>, to: Seq<char>) -> Seq<char>
    decreases s.len(),
{
    if from.len() == 0 || s.len() == 0 {
        s
    } else if from.is_prefix_of(s) {
        to + replaced(s.skip(from.len() as int), from, to)
    } else {
        seq![s[0]] + replaced(s.drop_first(), from, to)
    }
}

/// `str::replace` with a text for the pattern: every match of the non-empty
/// text `from`, found from left to right, gives way to `to`.
#[verifier::external_body]
pub(crate) fn replace_text(s: &str, from: &str, to: &str) -> (r: String)
    requires
        from@.len() > 0,
    ensures
        r@ == replaced(s@, from@, to@),
{
    s.replace(from, to)
}

/// The decimal digit for `d`, from 0 to 9.
pub open spec fn digit(d: int) -> char {
    ('0' as int + d) as char
}

/// A natural number in decimal digits, without leading zeros.
pub open spec fn digits(n: nat) -> Seq<char>
    decreases n,
{
    if n < 10 {
        seq![digit(n as int)]
    } else {
        digits(n / 10).push(digit((n % 10) as int))
    }
}

/// An integer in decimal digits, with a minus sign in front where it is
/// negative.
pub open spec fn decimal(n: int) -> Seq<char> {
    if n < 0 {
        seq!['-'] + digits((-n) as nat)
    } else {
        digits(n as nat)
    }
}

/// The text of one decimal digit.
fn digit_text(d: u64) -> (r: &'static str)
    requires
        d < 10,
    ensures
        r@ == seq![digit(d as int)],
{
    proof {
        reveal_strlit("0");
        reveal_strlit("1");
        reveal_strlit("2");
        reveal_strlit("3");
        reveal_strlit("4");
        reveal_strlit("5");
        reveal_strlit("6");
        reveal_strlit("7");
        reveal_strlit("8");
        reveal_strlit("9");
    }
    let r = match d {
        0 => "0",
        1 => "1",
        2 => "2",
        3 => "3",
        4 => "4",
        5 => "5",
        6 => "6",
        7 => "7",
        8 => "8",
        _ => "9",
    };
    assert(r@ =~= seq![digit(d as int)]);
    r
}

/// Puts the decimal digits of `n` behind a text.
fn append_digits(out: &mut String, n: u64)
    ensures
        final(out)@ == old(out)@ + digits(n as nat),
    decreases n,
{
    let ghost before = out@;
    if n >= 10 {
        append_digits(out, n / 10);
    }
    out.append(digit_text(n % 10));
    assert(out@ =~= before + digits(n as nat));
}

/// An integer as a decimal text.
pub fn decimal_text(n: i64) -> (r: String)
    ensures
        r@ == decimal(n as int),
{
    let mut r = String::new();
    if n < 0 {
        proof {
            reveal_strlit("-");
        }
        r.append("-");
        append_digits(&mut r, (-(n as i128)) as u64);
    } else {
        append_digits(&mut r, n as u64);
    }
    assert(r@ =~= decimal(n as int));
    r
}

/// Distinct natural numbers have distinct digits.
proof fn lemma_digits_injective(a: nat, b: nat)
    requires
        digits(a) == digits(b),
    ensures
        a == b,
    decreases a,
{
    assert(digits(a).last() == digit((a % 10) as int));
    assert(digits(b).last() == digit((b % 10) as int));
    lemma_digits_nonempty(a / 10);
    lemma_digits_nonempty(b / 10);
    if a >= 10 && b >= 10 {
        assert(digits(a).drop_last() =~= digits(a / 10));
        assert(digits(b).drop_last() =~= digits(b / 10));
        lemma_digits_injective(a / 10, b / 10);
    }
}

/// Digits start with a digit.
proof fn lemma_digits_nonempty(n: nat)
    ensures
        digits(n).len() >= 1,
        digits(n)[0] != '-',
    decreases n,
{
    if n >= 10 {
        lemma_digits_nonempty(n / 10);
    }
}

/// Distinct integers have distinct decimal texts.
pub proof fn lemma_decimal_injective(a: int, b: int)
    requires
        decimal(a) == decimal(b),
    ensures
        a == b,
{
    if a < 0 {
        lemma_digits_nonempty((-a) as nat);
        assert(decimal(a)[0] == '-');
        assert(decimal(a).skip(1) =~= digits((-a) as nat));
    } else {
        lemma_digits_nonempty(a as nat);
    }
    if b < 0 {
        lemma_digits_nonempty((-b) as nat);
        assert(decimal(b)[0] == '-');
        assert(decimal(b).skip(1) =~= digits((-b) as nat));
        lemma_digits_injective((-a) as nat, (-b) as nat);
    } else {
        lemma_digits_nonempty(b as nat);
        lemma_digits_injective(a as nat, b as nat);
    }
}

/// Putting a text in small letters adds 32 to the code of each letter from `A`
/// to `Z` and leaves every other character as it is.
pub proof fn lemma_ascii_lower_codes(s: Seq<char>)
    ensures
        ascii_lower(s).len() == s.len(),
        forall|i: int|
            0 <= i < s.len() ==> (#[trigger] ascii_lower(s)[i]) as int - s[i] as int == (if 65
                <= s[i] as int <= 90 {
                32int
            } else {
                0
            }),
{
}

/// Putting a text in capital letters takes 32 from the code of each letter from
/// `a` to `z` and leaves every other character as it is.
pub proof fn lemma_ascii_upper_codes(s: Seq<char>)
    ensures
        ascii_upper(s).len() == s.len(),
        forall|i: int|
            0 <= i < s.len() ==> s[i] as int - (#[trigger] ascii_upper(s)[i]) as int == (if 97
                <= s[i] as int <= 122 {
                32int
            } else {
                0
            }),
{
}

/// What names are sorted by has the codes of the name, those of the letters from
/// `A` to `Z` raised by 32, where the name is ASCII; of any other name it is what
/// Unicode makes of the name with those letters raised.
pub proof fn lemma_lowered_codes(s: Seq<char>)
    ensures
        vstd::utf8::is_ascii_chars(s) ==> lowered(s).len() == s.len() && forall|i: int|
            0 <= i < s.len() ==> (#[trigger] lowered(s)[i]) as int - s[i] as int == (if 65
                <= s[i] as int <= 90 {
                32int
            } else {
                0
            }),
        !vstd::utf8::is_ascii_chars(s) ==> lowered(s) == lowercase(ascii_lower(s)),
{
    lemma_ascii_lower_codes(s);
}

/// A decimal text is one digit, or the text of the tenth part with the digit of
/// the remainder behind it, or a minus sign with the text of the opposite number
/// behind it.
pub proof fn lemma_decimal_steps(n: int)
    ensures
        0 <= n < 10 ==> decimal(n).len() == 1 && decimal(n)[0] as int == 48 + n,
        10 <= n ==> decimal(n).len() == decimal(n / 10).len() + 1 && decimal(n).drop_last()
            == decimal(n / 10) && decimal(n).last() as int == 48 + n % 10,
        n < 0 ==> decimal(n) == seq!['-'] + decimal(-n),
{
    if 10 <= n {
        assert(decimal(n).drop_last() =~= decimal(n / 10));
    }
}

/// Two texts of [`decimal_text`] compare as their numbers do: a number's text is
/// that of its tenth part with one more digit, and a negative number's text that
/// of its opposite with a minus sign.
pub proof fn lemma_decimal_text(n: i64, r: String)
    requires
        call_ensures(decimal_text, (n,), r),
    ensures
        0 <= n < 10 ==> r@.len() == 1 && r@[0] as int == 48 + n,
        forall|m: i64, q: String|
            10 <= n && m == n as int / 10 && #[trigger] call_ensures(decimal_text, (m,), q)
                ==> r@.len() == q@.len() + 1 && r@.drop_last() == q@ && r@.last() as int == 48 + n
                as int % 10,
        forall|m: i64, q: String|
            n < 0 && m == -n && #[trigger] call_ensures(decimal_text, (m,), q) ==> r@ == seq!['-']
                + q@,
{
    lemma_decimal_steps(n as int);
}

} // verus!
