//! Canonical JSON rendering.  The image config and every manifest are
//! content-addressed: their digests are digests of these exact bytes, so
//! the rendering is fixed once and for all — one key order (declaration
//! order), no whitespace, strings escaped the same way every time.

use vstd::prelude::*;

use crate::strutil::concat3;

verus! {

pub open spec fn spec_hex_digits() -> Seq<char> {
    seq!['0', '1', '2', '3', '4', '5', '6', '7', '8', '9', 'a', 'b', 'c', 'd', 'e', 'f']
}

/// How one character is written inside a JSON string: quote and backslash
/// escaped, the common control characters by letter, the rest of the
/// control range as `\u00XX`.
pub open spec fn json_escape_char(c: char) -> Seq<char> {
    if c == '"' {
        seq!['\\', '"']
    } else if c == '\\' {
        seq!['\\', '\\']
    } else if c == '\n' {
        seq!['\\', 'n']
    } else if c == '\r' {
        seq!['\\', 'r']
    } else if c == '\t' {
        seq!['\\', 't']
    } else if (c as u32) < 32 {
        seq!['\\', 'u', '0', '0'] + seq![
            spec_hex_digits()[c as u32 as int / 16],
            spec_hex_digits()[c as u32 as int % 16],
        ]
    } else {
        seq![c]
    }
}

/// A string's characters, escaped for JSON.
pub open spec fn json_escape(s: Seq<char>) -> Seq<char>
    decreases s.len(),
{
    if s.len() == 0 {
        Seq::empty()
    } else {
        json_escape(s.drop_last()) + json_escape_char(s.last())
    }
}

/// A JSON string literal: the escaped characters between quotes.
pub open spec fn json_quote_seq(s: Seq<char>) -> Seq<char> {
    seq!['"'] + json_escape(s) + seq!['"']
}

/// The decimal digits of a natural number.
pub open spec fn dec_digits(n: nat) -> Seq<char>
    decreases n,
{
    if n < 10 {
        seq![spec_hex_digits()[n as int]]
    } else {
        dec_digits(n / 10) + seq![spec_hex_digits()[n as int % 10]]
    }
}

/// A JSON number: decimal digits with a sign when negative.
pub open spec fn json_int(n: int) -> Seq<char> {
    if n < 0 {
        seq!['-'] + dec_digits((-n) as nat)
    } else {
        dec_digits(n as nat)
    }
}

/// A JSON array of strings.
pub open spec fn json_array_items(xs: Seq<Seq<char>>) -> Seq<char>
    decreases xs.len(),
{
    if xs.len() == 0 {
        Seq::empty()
    } else if xs.len() == 1 {
        json_quote_seq(xs[0])
    } else {
        json_array_items(xs.drop_last()) + seq![','] + json_quote_seq(xs.last())
    }
}

pub open spec fn json_string_array_seq(xs: Seq<Seq<char>>) -> Seq<char> {
    seq!['['] + json_array_items(xs) + seq![']']
}

/// The characters whose escaped form starts with a backslash.
pub open spec fn is_escaped_char(c: char) -> bool {
    c == '"' || c == '\\' || c == '\n' || c == '\r' || c == '\t' || (c as u32) < 32
}

/// Equal concatenations with equally long heads have equal heads and
/// equal tails.
pub proof fn lemma_cancel_prefix(a1: Seq<char>, a2: Seq<char>, t1: Seq<char>, t2: Seq<char>)
    requires
        a1 + t1 == a2 + t2,
        a1.len() == a2.len(),
    ensures
        a1 == a2,
        t1 == t2,
{
    assert(a1 =~= a2) by {
        assert forall|i: int| 0 <= i < a1.len() implies a1[i] == a2[i] by {
            assert(a1[i] == (a1 + t1)[i]);
            assert(a2[i] == (a2 + t2)[i]);
        }
    }
    assert(t1.len() == t2.len()) by {
        assert((a1 + t1).len() == a1.len() + t1.len());
        assert((a2 + t2).len() == a2.len() + t2.len());
    }
    assert(t1 =~= t2) by {
        assert forall|i: int| 0 <= i < t1.len() implies t1[i] == t2[i] by {
            assert(t1[i] == (a1 + t1)[a1.len() + i]);
            assert(t2[i] == (a2 + t2)[a2.len() + i]);
        }
    }
}

/// Escaping distributes over concatenation.
pub proof fn lemma_escape_distributes(a: Seq<char>, b: Seq<char>)
    ensures
        json_escape(a + b) == json_escape(a) + json_escape(b),
    decreases b.len(),
{
    if b.len() == 0 {
        assert(a + b =~= a);
        assert(json_escape(a) + json_escape(b) =~= json_escape(a));
    } else {
        assert((a + b).drop_last() =~= a + b.drop_last());
        assert((a + b).last() == b.last());
        lemma_escape_distributes(a, b.drop_last());
        assert(json_escape(a) + json_escape(b) =~= (json_escape(a) + json_escape(b.drop_last()))
            + json_escape_char(b.last()));
    }
}

/// Escaping peels one character from the left.
pub proof fn lemma_escape_left(s: Seq<char>)
    requires
        s.len() > 0,
    ensures
        json_escape(s) == json_escape_char(s[0]) + json_escape(s.drop_first()),
{
    assert(s =~= seq![s[0]] + s.drop_first());
    lemma_escape_distributes(seq![s[0]], s.drop_first());
    assert(seq![s[0]].drop_last() =~= Seq::<char>::empty());
    assert(json_escape(Seq::<char>::empty()) =~= Seq::<char>::empty());
    assert(json_escape(seq![s[0]]) == json_escape(seq![s[0]].drop_last()) + json_escape_char(
        seq![s[0]].last(),
    ));
    assert(seq![s[0]].last() == s[0]);
    assert(json_escape(seq![s[0]]) =~= json_escape_char(s[0]));
}

/// What an escape token looks like from outside: it is nonempty, it never
/// starts with a bare quote, and it starts with a backslash exactly for
/// the escaped characters.
pub proof fn lemma_escape_char_props(c: char)
    ensures
        json_escape_char(c).len() > 0,
        json_escape_char(c)[0] != '"',
        (json_escape_char(c)[0] == '\\') == is_escaped_char(c),
        !is_escaped_char(c) ==> json_escape_char(c) == seq![c],
{
}

/// One escape token followed by arbitrary text determines the character
/// and the text: the escaping is a prefix code.
pub proof fn lemma_escape_char_unambiguous(c1: char, c2: char, t1: Seq<char>, t2: Seq<char>)
    requires
        json_escape_char(c1) + t1 == json_escape_char(c2) + t2,
    ensures
        c1 == c2,
        t1 == t2,
{
    lemma_escape_char_props(c1);
    lemma_escape_char_props(c2);
    let e1 = json_escape_char(c1);
    let e2 = json_escape_char(c2);
    let whole = e1 + t1;
    assert(whole == e2 + t2);
    if !is_escaped_char(c1) && !is_escaped_char(c2) {
        assert(whole[0] == c1 && whole[0] == c2);
        lemma_cancel_prefix(e1, e2, t1, t2);
    } else if is_escaped_char(c1) && is_escaped_char(c2) {
        assert(whole[1] == e1[1]);
        assert(whole[1] == e2[1]);
        // the second character separates the escape classes
        if (c1 as u32) < 32 && c1 != '\n' && c1 != '\r' && c1 != '\t' {
            assert(e1[1] == 'u');
            assert(e2[1] == 'u');
            assert((c2 as u32) < 32 && c2 != '\n' && c2 != '\r' && c2 != '\t');
            assert(e1.len() == 6 && e2.len() == 6);
            lemma_cancel_prefix(e1, e2, t1, t2);
            assert(e1[4] == e2[4]);
            assert(e1[5] == e2[5]);
            assert(spec_hex_digits()[c1 as u32 as int / 16] == spec_hex_digits()[c2 as u32 as int
                / 16]);
            assert(spec_hex_digits()[c1 as u32 as int % 16] == spec_hex_digits()[c2 as u32 as int
                % 16]);
            assert(c1 as u32 as int / 16 == c2 as u32 as int / 16);
            assert(c1 as u32 as int % 16 == c2 as u32 as int % 16);
            assert(c1 as u32 == c2 as u32);
            assert(c1 == c2);
        } else {
            assert(e1.len() == 2);
            assert((c2 as u32) >= 32 || c2 == '\n' || c2 == '\r' || c2 == '\t') by {
                if (c2 as u32) < 32 && c2 != '\n' && c2 != '\r' && c2 != '\t' {
                    assert(e2[1] == 'u');
                    assert(e1[1] == 'u');
                    assert(false);
                }
            }
            assert(e2.len() == 2);
            assert(c1 == c2);
            lemma_cancel_prefix(e1, e2, t1, t2);
        }
    } else if is_escaped_char(c1) && !is_escaped_char(c2) {
        assert(whole[0] == '\\' && whole[0] == c2);
        assert(false);
    } else {
        assert(whole[0] == c1 && whole[0] == '\\');
        assert(false);
    }
}

/// An escaped body closed by a quote determines the body and what
/// follows: nothing inside an escaped body reads as a closing quote.
pub proof fn lemma_escaped_body_unambiguous(
    s1: Seq<char>,
    s2: Seq<char>,
    r1: Seq<char>,
    r2: Seq<char>,
)
    requires
        json_escape(s1) + seq!['"'] + r1 == json_escape(s2) + seq!['"'] + r2,
    ensures
        s1 == s2,
        r1 == r2,
    decreases s1.len(),
{
    let whole = json_escape(s1) + seq!['"'] + r1;
    if s1.len() == 0 && s2.len() == 0 {
        assert(json_escape(s1) =~= Seq::<char>::empty());
        assert(json_escape(s2) =~= Seq::<char>::empty());
        assert(json_escape(s1) + seq!['"'] =~= seq!['"']);
        assert(json_escape(s2) + seq!['"'] =~= seq!['"']);
        lemma_cancel_prefix(json_escape(s1) + seq!['"'], json_escape(s2) + seq!['"'], r1, r2);
    } else if s1.len() == 0 {
        lemma_escape_left(s2);
        lemma_escape_char_props(s2[0]);
        assert(json_escape(s1) =~= Seq::<char>::empty());
        assert(whole =~= seq!['"'] + r1);
        assert(whole[0] == '"');
        assert(json_escape(s2) + seq!['"'] + r2 =~= json_escape_char(s2[0]) + (json_escape(
            s2.drop_first(),
        ) + seq!['"'] + r2));
        assert((json_escape(s2) + seq!['"'] + r2)[0] == json_escape_char(s2[0])[0]);
        assert(false);
    } else if s2.len() == 0 {
        lemma_escape_left(s1);
        lemma_escape_char_props(s1[0]);
        assert(whole =~= json_escape_char(s1[0]) + (json_escape(s1.drop_first()) + seq!['"']
            + r1));
        assert(whole[0] == json_escape_char(s1[0])[0]);
        assert(json_escape(s2) =~= Seq::<char>::empty());
        assert(json_escape(s2) + seq!['"'] + r2 =~= seq!['"'] + r2);
        assert((json_escape(s2) + seq!['"'] + r2)[0] == '"');
        assert(false);
    } else {
        lemma_escape_left(s1);
        lemma_escape_left(s2);
        let tail1 = json_escape(s1.drop_first()) + seq!['"'] + r1;
        let tail2 = json_escape(s2.drop_first()) + seq!['"'] + r2;
        assert(json_escape_char(s1[0]) + tail1 =~= whole);
        assert(json_escape_char(s2[0]) + tail2 =~= json_escape(s2) + seq!['"'] + r2);
        lemma_escape_char_unambiguous(s1[0], s2[0], tail1, tail2);
        lemma_escaped_body_unambiguous(s1.drop_first(), s2.drop_first(), r1, r2);
        assert(s1 =~= s2) by {
            assert(s1.len() == s2.len());
            assert forall|i: int| 0 <= i < s1.len() implies s1[i] == s2[i] by {
                if i > 0 {
                    assert(s1.drop_first()[i - 1] == s1[i]);
                    assert(s2.drop_first()[i - 1] == s2[i]);
                }
            }
        }
    }
}

/// A JSON string literal followed by arbitrary text determines the string
/// and the text.
pub proof fn lemma_json_string_unambiguous(
    s1: Seq<char>,
    s2: Seq<char>,
    r1: Seq<char>,
    r2: Seq<char>,
)
    requires
        json_quote_seq(s1) + r1 == json_quote_seq(s2) + r2,
    ensures
        s1 == s2,
        r1 == r2,
{
    assert(json_quote_seq(s1) + r1 =~= seq!['"'] + (json_escape(s1) + seq!['"'] + r1));
    assert(json_quote_seq(s2) + r2 =~= seq!['"'] + (json_escape(s2) + seq!['"'] + r2));
    lemma_cancel_prefix(
        seq!['"'],
        seq!['"'],
        json_escape(s1) + seq!['"'] + r1,
        json_escape(s2) + seq!['"'] + r2,
    );
    lemma_escaped_body_unambiguous(s1, s2, r1, r2);
}

/// Decimal digit runs are nonempty and hold digits only.
pub proof fn lemma_dec_digits_shape(n: nat)
    ensures
        dec_digits(n).len() > 0,
        forall|i: int|
            0 <= i < dec_digits(n).len() ==> crate::strutil::is_digit_char(
                #[trigger] dec_digits(n)[i],
            ),
    decreases n,
{
    if n >= 10 {
        lemma_dec_digits_shape(n / 10);
    }
}

/// Equal digit runs come from equal numbers.
pub proof fn lemma_dec_digits_injective(n1: nat, n2: nat)
    requires
        dec_digits(n1) == dec_digits(n2),
    ensures
        n1 == n2,
    decreases n1,
{
    lemma_dec_digits_shape(n1);
    lemma_dec_digits_shape(n2);
    if n1 < 10 && n2 < 10 {
        assert(dec_digits(n1) =~= seq![spec_hex_digits()[n1 as int]]);
        assert(dec_digits(n2) =~= seq![spec_hex_digits()[n2 as int]]);
        assert(dec_digits(n1)[0] == dec_digits(n2)[0]);
        assert(dec_digits(n1)[0] == spec_hex_digits()[n1 as int]);
        assert(dec_digits(n2)[0] == spec_hex_digits()[n2 as int]);
        assert(spec_hex_digits()[n1 as int] == spec_hex_digits()[n2 as int]);
    } else if n1 < 10 {
        assert(dec_digits(n1).len() == 1);
        assert(dec_digits(n2).len() == dec_digits(n2 / 10).len() + 1);
        assert(false);
    } else if n2 < 10 {
        assert(dec_digits(n2).len() == 1);
        assert(dec_digits(n1).len() == dec_digits(n1 / 10).len() + 1);
        assert(false);
    } else {
        let a = dec_digits(n1 / 10);
        let b = dec_digits(n2 / 10);
        assert(dec_digits(n1).last() == spec_hex_digits()[n1 as int % 10]);
        assert(dec_digits(n2).last() == spec_hex_digits()[n2 as int % 10]);
        assert(n1 % 10 == n2 % 10);
        assert(a =~= b) by {
            assert(a.len() == b.len());
            assert(forall|i: int|
                0 <= i < a.len() ==> #[trigger] a[i] == dec_digits(n1)[i] && b[i] == dec_digits(
                    n2,
                )[i]);
        }
        lemma_dec_digits_injective(n1 / 10, n2 / 10);
    }
}

/// A JSON number followed by a delimiter that is neither digit nor minus
/// determines the number and what follows.
pub proof fn lemma_json_int_unambiguous(n1: int, n2: int, r1: Seq<char>, r2: Seq<char>)
    requires
        json_int(n1) + r1 == json_int(n2) + r2,
        r1.len() > 0,
        r2.len() > 0,
        !crate::strutil::is_digit_char(r1[0]),
        !crate::strutil::is_digit_char(r2[0]),
        r1[0] != '-',
        r2[0] != '-',
    ensures
        n1 == n2,
        r1 == r2,
{
    let whole = json_int(n1) + r1;
    if n1 < 0 && n2 >= 0 {
        lemma_dec_digits_shape(n2 as nat);
        assert(whole[0] == '-');
        assert((json_int(n2) + r2)[0] == dec_digits(n2 as nat)[0]);
        assert(false);
    } else if n1 >= 0 && n2 < 0 {
        lemma_dec_digits_shape(n1 as nat);
        assert(whole[0] == dec_digits(n1 as nat)[0]);
        assert((json_int(n2) + r2)[0] == '-');
        assert(false);
    } else if n1 < 0 && n2 < 0 {
        let m1 = (-n1) as nat;
        let m2 = (-n2) as nat;
        assert(json_int(n1) + r1 =~= seq!['-'] + (dec_digits(m1) + r1));
        assert(json_int(n2) + r2 =~= seq!['-'] + (dec_digits(m2) + r2));
        lemma_cancel_prefix(seq!['-'], seq!['-'], dec_digits(m1) + r1, dec_digits(m2) + r2);
        lemma_digit_run_unambiguous(m1, m2, r1, r2);
    } else {
        lemma_digit_run_unambiguous(n1 as nat, n2 as nat, r1, r2);
    }
}

proof fn lemma_digit_run_unambiguous(n1: nat, n2: nat, r1: Seq<char>, r2: Seq<char>)
    requires
        dec_digits(n1) + r1 == dec_digits(n2) + r2,
        r1.len() > 0,
        r2.len() > 0,
        !crate::strutil::is_digit_char(r1[0]),
        !crate::strutil::is_digit_char(r2[0]),
    ensures
        n1 == n2,
        r1 == r2,
{
    lemma_dec_digits_shape(n1);
    lemma_dec_digits_shape(n2);
    let d1 = dec_digits(n1);
    let d2 = dec_digits(n2);
    let whole = d1 + r1;
    assert(d1.len() == d2.len()) by {
        if d1.len() < d2.len() {
            assert(whole[d1.len() as int] == r1[0]);
            assert(whole[d1.len() as int] == d2[d1.len() as int]);
            assert(false);
        }
        if d2.len() < d1.len() {
            assert(whole[d2.len() as int] == d1[d2.len() as int]);
            assert(whole[d2.len() as int] == r2[0]);
            assert(false);
        }
    }
    assert(d1 =~= d2) by {
        assert(forall|i: int|
            0 <= i < d1.len() ==> #[trigger] d1[i] == whole[i] && d2[i] == whole[i]);
    }
    lemma_dec_digits_injective(n1, n2);
    lemma_cancel_prefix(d1, d2, r1, r2);
}

/// A fixed leading literal determines what follows.
pub proof fn lemma_peel_literal(lit: Seq<char>, r1: Seq<char>, r2: Seq<char>)
    requires
        lit + r1 == lit + r2,
    ensures
        r1 == r2,
{
    lemma_cancel_prefix(lit, lit, r1, r2);
}

/// A JSON boolean.
pub open spec fn json_bool(b: bool) -> Seq<char> {
    if b {
        "true"@
    } else {
        "false"@
    }
}

/// Append `true` or `false` to `out`.
pub fn append_json_bool(out: &mut String, b: bool)
    ensures
        final(out)@ == old(out)@ + json_bool(b),
{
    if b {
        out.append("true");
    } else {
        out.append("false");
    }
}

/// Append the escaped form of `s` to `out`.
pub fn append_escaped(out: &mut String, s: &str)
    ensures
        final(out)@ == old(out)@ + json_escape(s@),
{
    let n = s.unicode_len();
    let hx = "0123456789abcdef";
    proof {
        reveal_strlit("0123456789abcdef");
        assert(hx@ =~= spec_hex_digits());
        assert(s@.take(0) =~= Seq::<char>::empty());
        assert(old(out)@ + json_escape(s@.take(0)) =~= old(out)@);
    }
    let mut i: usize = 0;
    while i < n
        invariant
            i <= n,
            n == s@.len(),
            hx@ == spec_hex_digits(),
            hx.is_ascii(),
            hx@.len() == 16,
            out@ == old(out)@ + json_escape(s@.take(i as int)),
        decreases n - i,
    {
        let c = s.get_char(i);
        if c == '"' {
            out.append("\\\"");
            proof {
                reveal_strlit("\\\"");
            }
        } else if c == '\\' {
            out.append("\\\\");
            proof {
                reveal_strlit("\\\\");
            }
        } else if c == '\n' {
            out.append("\\n");
            proof {
                reveal_strlit("\\n");
            }
        } else if c == '\r' {
            out.append("\\r");
            proof {
                reveal_strlit("\\r");
            }
        } else if c == '\t' {
            out.append("\\t");
            proof {
                reveal_strlit("\\t");
            }
        } else if (c as u32) < 32 {
            let hi = ((c as u32) / 16) as usize;
            let lo = ((c as u32) % 16) as usize;
            out.append("\\u00");
            out.append(hx.substring_char(hi, hi + 1));
            out.append(hx.substring_char(lo, lo + 1));
            proof {
                reveal_strlit("\\u00");
                assert(hx@.subrange(hi as int, hi as int + 1) =~= seq![
                    spec_hex_digits()[hi as int],
                ]);
                assert(hx@.subrange(lo as int, lo as int + 1) =~= seq![
                    spec_hex_digits()[lo as int],
                ]);
            }
        } else {
            out.append(s.substring_char(i, i + 1));
            proof {
                assert(s@.subrange(i as int, i as int + 1) =~= seq![s@[i as int]]);
            }
        }
        proof {
            assert(s@.take(i as int + 1).drop_last() =~= s@.take(i as int));
            assert(s@.take(i as int + 1).last() == s@[i as int]);
            assert(json_escape(s@.take(i as int + 1)) == json_escape(s@.take(i as int))
                + json_escape_char(s@[i as int]));
        }
        i = i + 1;
    }
    proof {
        assert(s@.take(n as int) =~= s@);
    }
}

/// Append a JSON string literal to `out`.
pub fn append_json_string(out: &mut String, s: &str)
    ensures
        final(out)@ == old(out)@ + json_quote_seq(s@),
{
    out.append("\"");
    append_escaped(out, s);
    out.append("\"");
    proof {
        reveal_strlit("\"");
        assert("\""@ =~= seq!['"']);
        assert(old(out)@ + json_quote_seq(s@) =~= old(out)@ + "\""@ + json_escape(s@) + "\""@);
    }
}

/// The decimal form of a 64-bit natural number.
pub fn u64_to_dec(n: u64) -> (r: String)
    ensures
        r@ == dec_digits(n as nat),
{
    let hx = "0123456789abcdef";
    proof {
        reveal_strlit("0123456789abcdef");
        assert(hx@ =~= spec_hex_digits());
    }
    if n == 0 {
        let z = hx.substring_char(0, 1);
        proof {
            assert(hx@.subrange(0, 1) =~= seq![spec_hex_digits()[0]]);
        }
        return z.to_owned();
    }
    let mut acc = String::new();
    let mut m: u64 = n;
    while m > 0
        invariant
            hx@ == spec_hex_digits(),
            hx.is_ascii(),
            hx@.len() == 16,
            m > 0 ==> dec_digits(n as nat) == dec_digits(m as nat) + acc@,
            m == 0 ==> acc@ == dec_digits(n as nat),
        decreases m,
    {
        let d = (m % 10) as usize;
        let digit = hx.substring_char(d, d + 1);
        proof {
            assert(hx@.subrange(d as int, d as int + 1) =~= seq![spec_hex_digits()[d as int]]);
        }
        let next = digit.to_owned().concat(acc.as_str());
        proof {
            if m >= 10 {
                assert(dec_digits(m as nat) == dec_digits((m as nat) / 10) + seq![
                    spec_hex_digits()[(m as nat % 10) as int],
                ]);
                assert(dec_digits(m as nat) + acc@ =~= dec_digits((m as nat) / 10) + (seq![
                    spec_hex_digits()[(m as nat % 10) as int],
                ] + acc@));
            } else {
                assert(dec_digits(m as nat) == seq![spec_hex_digits()[m as int]]);
                assert(dec_digits(m as nat) + acc@ =~= seq![spec_hex_digits()[m as int]] + acc@);
            }
            assert((m as nat) / 10 == (m / 10) as nat);
        }
        acc = next;
        m = m / 10;
    }
    acc
}

/// The decimal form of a signed 64-bit number.
pub fn i64_to_dec(n: i64) -> (r: String)
    ensures
        r@ == json_int(n as int),
{
    if n >= 0 {
        u64_to_dec(n as u64)
    } else {
        let magnitude: u64 = if n == i64::MIN {
            9223372036854775808u64
        } else {
            (-n) as u64
        };
        proof {
            assert(magnitude as nat == (-(n as int)) as nat);
        }
        let digits = u64_to_dec(magnitude);
        let r = crate::strutil::concat2("-", digits.as_str());
        proof {
            reveal_strlit("-");
            assert("-"@ =~= seq!['-']);
        }
        r
    }
}

/// Append `[…]` holding the strings of `v`, in order, to `out`.
pub fn append_json_string_array(out: &mut String, v: &Vec<String>)
    ensures
        final(out)@ == old(out)@ + json_string_array_seq(v.deep_view()),
{
    out.append("[");
    let n = v.len();
    proof {
        reveal_strlit("[");
        reveal_strlit("]");
        reveal_strlit(",");
        assert(v.deep_view().take(0) =~= Seq::<Seq<char>>::empty());
    }
    let mut i: usize = 0;
    while i < n
        invariant
            i <= n,
            n == v@.len(),
            n == v.deep_view().len(),
            forall|k: int| 0 <= k < n ==> v.deep_view()[k] == #[trigger] v@[k]@,
            "["@ =~= seq!['['],
            ","@ =~= seq![','],
            out@ == old(out)@ + seq!['['] + json_array_items(v.deep_view().take(i as int)),
        decreases n - i,
    {
        if i > 0 {
            out.append(",");
        }
        append_json_string(out, v[i].as_str());
        proof {
            let xs = v.deep_view().take(i as int + 1);
            assert(xs.drop_last() =~= v.deep_view().take(i as int));
            assert(xs.last() == v.deep_view()[i as int]);
            if i == 0 {
                assert(json_array_items(xs) == json_quote_seq(v.deep_view()[0]));
                assert(out@ =~= old(out)@ + seq!['['] + json_array_items(xs));
            } else {
                assert(json_array_items(xs) == json_array_items(v.deep_view().take(i as int))
                    + seq![','] + json_quote_seq(xs.last()));
                assert(out@ =~= old(out)@ + seq!['['] + json_array_items(xs));
            }
        }
        i = i + 1;
    }
    out.append("]");
    proof {
        assert(v.deep_view().take(n as int) =~= v.deep_view());
        assert("]"@ =~= seq![']']);
        assert(out@ =~= old(out)@ + json_string_array_seq(v.deep_view()));
    }
}

} // verus!
