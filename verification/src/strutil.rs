//! Small string toolkit: character classes, searching, trimming and
//! comparison, each exec function tied to a spec-level counterpart over
//! `Seq<char>`.

use vstd::prelude::*;

verus! {

/// The character view of an optional string.
pub open spec fn opt_str_view(o: Option<String>) -> Option<Seq<char>> {
    match o {
        Some(s) => Some(s@),
        None => None,
    }
}

/// The whitespace characters that trimming removes.
pub open spec fn is_space_char(c: char) -> bool {
    c == ' ' || c == '\t' || c == '\n' || c == '\r' || c == '\u{b}' || c == '\u{c}'
}

pub open spec fn is_digit_char(c: char) -> bool {
    ('0' as u32) <= (c as u32) && (c as u32) <= ('9' as u32)
}

pub open spec fn all_digit_chars(s: Seq<char>) -> bool {
    forall|i: int| 0 <= i < s.len() ==> is_digit_char(#[trigger] s[i])
}

/// Index of the last occurrence of `c` in `s`, or -1 when absent.
pub open spec fn find_last(s: Seq<char>, c: char) -> int
    decreases s.len(),
{
    if s.len() == 0 {
        -1
    } else if s.last() == c {
        s.len() - 1
    } else {
        find_last(s.drop_last(), c)
    }
}

/// Index of the first occurrence of `c` in `s`, or -1 when absent.
pub open spec fn find_first(s: Seq<char>, c: char) -> int
    decreases s.len(),
{
    if s.len() == 0 {
        -1
    } else if s[0] == c {
        0
    } else if find_first(s.drop_first(), c) < 0 {
        -1
    } else {
        find_first(s.drop_first(), c) + 1
    }
}

/// What `str::trim` leaves: the sequence with leading and trailing
/// whitespace removed.
pub open spec fn spec_trim(s: Seq<char>) -> Seq<char>
    decreases s.len(),
{
    if s.len() > 0 && is_space_char(s[0]) {
        spec_trim(s.drop_first())
    } else if s.len() > 0 && is_space_char(s.last()) {
        spec_trim(s.drop_last())
    } else {
        s
    }
}

pub proof fn lemma_find_last_props(s: Seq<char>, c: char)
    ensures
        -1 <= find_last(s, c) < s.len(),
        find_last(s, c) >= 0 ==> s[find_last(s, c)] == c,
        forall|i: int| find_last(s, c) < i < s.len() ==> s[i] != c,
        (find_last(s, c) >= 0) == s.contains(c),
    decreases s.len(),
{
    if s.len() == 0 {
    } else if s.last() == c {
        assert(s.contains(c)) by {
            assert(s[s.len() - 1] == c);
        }
    } else {
        lemma_find_last_props(s.drop_last(), c);
        assert forall|i: int| find_last(s, c) < i < s.len() implies s[i] != c by {
            if i < s.len() - 1 {
                assert(s.drop_last()[i] == s[i]);
            }
        }
        if find_last(s, c) >= 0 {
            assert(s.drop_last()[find_last(s, c)] == s[find_last(s, c)]);
        }
        if s.contains(c) {
            let w = choose|i: int| 0 <= i < s.len() && s[i] == c;
            assert(w < s.len() - 1);
            assert(s.drop_last()[w] == c);
            assert(s.drop_last().contains(c));
        }
    }
}

pub proof fn lemma_find_first_props(s: Seq<char>, c: char)
    ensures
        -1 <= find_first(s, c) < s.len(),
        find_first(s, c) >= 0 ==> s[find_first(s, c)] == c,
        forall|i: int| 0 <= i < find_first(s, c) ==> s[i] != c,
        (find_first(s, c) >= 0) == s.contains(c),
    decreases s.len(),
{
    if s.len() == 0 {
    } else if s[0] == c {
        assert(s.contains(c));
    } else {
        lemma_find_first_props(s.drop_first(), c);
        let r = find_first(s.drop_first(), c);
        assert forall|i: int| 0 <= i < find_first(s, c) implies s[i] != c by {
            if i > 0 {
                assert(s.drop_first()[i - 1] == s[i]);
            }
        }
        if r >= 0 {
            assert(s.drop_first()[r] == s[r + 1]);
        }
        if s.contains(c) {
            let w = choose|i: int| 0 <= i < s.len() && s[i] == c;
            assert(w >= 1);
            assert(s.drop_first()[w - 1] == c);
            assert(s.drop_first().contains(c));
        }
    }
}

/// Appending characters other than `c` on the right does not move the last
/// occurrence of `c`.
pub proof fn lemma_find_last_append_absent(a: Seq<char>, b: Seq<char>, c: char)
    requires
        !b.contains(c),
    ensures
        find_last(a + b, c) == find_last(a, c),
    decreases b.len(),
{
    if b.len() == 0 {
        assert(a + b =~= a);
    } else {
        assert(b[b.len() - 1] != c);
        assert((a + b).last() == b.last());
        assert((a + b).drop_last() =~= a + b.drop_last());
        assert(!b.drop_last().contains(c)) by {
            if b.drop_last().contains(c) {
                let w = choose|i: int| 0 <= i < b.len() - 1 && b.drop_last()[i] == c;
                assert(b[w] == c);
            }
        }
        lemma_find_last_append_absent(a, b.drop_last(), c);
    }
}

/// The last occurrence of `c` in `a + [c]` is at the end of `a`.
pub proof fn lemma_find_last_append_char(a: Seq<char>, c: char)
    ensures
        find_last(a + seq![c], c) == a.len(),
{
    assert((a + seq![c]).last() == c);
}

/// Prepending characters other than `c` on the left shifts the first
/// occurrence of `c` past them.
pub proof fn lemma_find_first_append_absent(a: Seq<char>, b: Seq<char>, c: char)
    requires
        !a.contains(c),
    ensures
        find_first(a + b, c) == if find_first(b, c) >= 0 {
            a.len() + find_first(b, c)
        } else {
            -1
        },
    decreases a.len(),
{
    if a.len() == 0 {
        assert(a + b =~= b);
    } else {
        assert(a[0] != c);
        assert((a + b)[0] == a[0]);
        assert((a + b).drop_first() =~= a.drop_first() + b);
        assert(!a.drop_first().contains(c)) by {
            if a.drop_first().contains(c) {
                let w = choose|i: int| 0 <= i < a.len() - 1 && a.drop_first()[i] == c;
                assert(a[w + 1] == c);
            }
        }
        lemma_find_first_append_absent(a.drop_first(), b, c);
    }
}

/// A sequence that neither starts nor ends with whitespace is its own trim.
pub proof fn lemma_trim_id(s: Seq<char>)
    requires
        s.len() == 0 || (!is_space_char(s[0]) && !is_space_char(s.last())),
    ensures
        spec_trim(s) == s,
{
}

/// The trim of a sequence neither starts nor ends with whitespace.
pub proof fn lemma_trim_no_edge_space(s: Seq<char>)
    ensures
        spec_trim(s).len() > 0 ==> !is_space_char(spec_trim(s)[0]) && !is_space_char(
            spec_trim(s).last(),
        ),
    decreases s.len(),
{
    if s.len() > 0 && is_space_char(s[0]) {
        lemma_trim_no_edge_space(s.drop_first());
    } else if s.len() > 0 && is_space_char(s.last()) {
        lemma_trim_no_edge_space(s.drop_last());
    }
}

/// Trimming keeps exactly the characters between the outermost
/// non-whitespace positions.
pub proof fn lemma_trim_range(s: Seq<char>, a: int, b: int)
    requires
        0 <= a <= b <= s.len(),
        forall|i: int| 0 <= i < a ==> is_space_char(#[trigger] s[i]),
        forall|i: int| b <= i < s.len() ==> is_space_char(#[trigger] s[i]),
        a < b ==> !is_space_char(s[a]) && !is_space_char(s[b - 1]),
    ensures
        spec_trim(s) == s.subrange(a, b),
    decreases s.len(),
{
    if a == 0 && b == s.len() {
        if s.len() == 0 {
            assert(spec_trim(s) =~= s.subrange(a, b));
        } else {
            assert(spec_trim(s) == s);
            assert(s.subrange(0, s.len() as int) =~= s);
        }
    } else if a > 0 {
        assert(is_space_char(s[0]));
        lemma_trim_range(s.drop_first(), a - 1, b - 1);
        assert(s.drop_first().subrange(a - 1, b - 1) =~= s.subrange(a, b));
    } else {
        assert(b < s.len());
        assert(is_space_char(s.last()));
        if s.len() > 0 && is_space_char(s[0]) {
            assert(a == 0 && a < b ==> !is_space_char(s[0]));
            assert(b == 0);
            lemma_trim_range(s.drop_first(), 0, 0);
            assert(s.drop_first().subrange(0, 0) =~= s.subrange(0, 0));
        } else {
            lemma_trim_range(s.drop_last(), a, b);
            assert(s.drop_last().subrange(a, b) =~= s.subrange(a, b));
        }
    }
}

/// What `str::trim_matches(c)` leaves: the sequence with leading and
/// trailing occurrences of `c` removed.
pub open spec fn spec_trim_char(s: Seq<char>, c: char) -> Seq<char>
    decreases s.len(),
{
    if s.len() > 0 && s[0] == c {
        spec_trim_char(s.drop_first(), c)
    } else if s.len() > 0 && s.last() == c {
        spec_trim_char(s.drop_last(), c)
    } else {
        s
    }
}

/// Trimming a character keeps exactly the span between the outermost
/// positions holding something else.
pub proof fn lemma_trim_char_range(s: Seq<char>, c: char, a: int, b: int)
    requires
        0 <= a <= b <= s.len(),
        forall|i: int| 0 <= i < a ==> #[trigger] s[i] == c,
        forall|i: int| b <= i < s.len() ==> #[trigger] s[i] == c,
        a < b ==> s[a] != c && s[b - 1] != c,
    ensures
        spec_trim_char(s, c) == s.subrange(a, b),
    decreases s.len(),
{
    if a == 0 && b == s.len() {
        if s.len() == 0 {
            assert(spec_trim_char(s, c) =~= s.subrange(a, b));
        } else {
            assert(s.subrange(0, s.len() as int) =~= s);
        }
    } else if a > 0 {
        assert(s[0] == c);
        lemma_trim_char_range(s.drop_first(), c, a - 1, b - 1);
        assert(s.drop_first().subrange(a - 1, b - 1) =~= s.subrange(a, b));
    } else {
        assert(b < s.len());
        assert(s.last() == c);
        if s.len() > 0 && s[0] == c {
            assert(b == 0);
            lemma_trim_char_range(s.drop_first(), c, 0, 0);
            assert(s.drop_first().subrange(0, 0) =~= s.subrange(0, 0));
        } else {
            lemma_trim_char_range(s.drop_last(), c, a, b);
            assert(s.drop_last().subrange(a, b) =~= s.subrange(a, b));
        }
    }
}

/// `str::trim_matches` for a single character.
pub fn trim_char_str<'a>(s: &'a str, c: char) -> (r: &'a str)
    ensures
        r@ == spec_trim_char(s@, c),
{
    let n = s.unicode_len();
    let mut a: usize = 0;
    while a < n && s.get_char(a) == c
        invariant
            a <= n,
            n == s@.len(),
            forall|j: int| 0 <= j < a ==> #[trigger] s@[j] == c,
        decreases n - a,
    {
        a = a + 1;
    }
    if a == n {
        proof {
            lemma_trim_char_range(s@, c, n as int, n as int);
        }
        return s.substring_char(n, n);
    }
    let mut b: usize = n;
    while b > a + 1 && s.get_char(b - 1) == c
        invariant
            a < b <= n,
            n == s@.len(),
            forall|j: int| b <= j < s@.len() ==> #[trigger] s@[j] == c,
        decreases b,
    {
        b = b - 1;
    }
    if s.get_char(b - 1) == c {
        proof {
            assert(b == a + 1);
            assert(s@[a as int] != c);
        }
        return s.substring_char(a, a);
    }
    proof {
        lemma_trim_char_range(s@, c, a as int, b as int);
    }
    s.substring_char(a, b)
}

/// A part of a sequence free of `c` stays free of `c`.
pub proof fn lemma_subrange_not_contains(s: Seq<char>, a: int, b: int, c: char)
    requires
        !s.contains(c),
        0 <= a <= b <= s.len(),
    ensures
        !s.subrange(a, b).contains(c),
{
    if s.subrange(a, b).contains(c) {
        let w = choose|i: int| 0 <= i < b - a && s.subrange(a, b)[i] == c;
        assert(s[a + w] == c);
    }
}

/// Concatenation of sequences free of `c` stays free of `c`.
pub proof fn lemma_append_not_contains(x: Seq<char>, y: Seq<char>, c: char)
    requires
        !x.contains(c),
        !y.contains(c),
    ensures
        !(x + y).contains(c),
{
    if (x + y).contains(c) {
        let w = choose|i: int| 0 <= i < x.len() + y.len() && (x + y)[i] == c;
        if w < x.len() {
            assert(x[w] == c);
        } else {
            assert(y[w - x.len()] == c);
        }
    }
}

pub fn is_space(c: char) -> (b: bool)
    ensures
        b == is_space_char(c),
{
    c == ' ' || c == '\t' || c == '\n' || c == '\r' || c == '\u{b}' || c == '\u{c}'
}

pub fn is_ascii_digit_char(c: char) -> (b: bool)
    ensures
        b == is_digit_char(c),
{
    (c as u32) >= ('0' as u32) && (c as u32) <= ('9' as u32)
}

/// Position of the last occurrence of `c` in `s`.
pub fn rfind_char(s: &str, c: char) -> (r: Option<usize>)
    ensures
        match r {
            Some(i) => i < s@.len() && find_last(s@, c) == i as int,
            None => find_last(s@, c) == -1,
        },
{
    let n = s.unicode_len();
    let mut i: usize = n;
    while i > 0
        invariant
            i <= n,
            n == s@.len(),
            forall|j: int| i <= j < s@.len() ==> s@[j] != c,
        decreases i,
    {
        let k = i - 1;
        if s.get_char(k) == c {
            proof {
                lemma_find_last_props(s@, c);
                assert(s@[k as int] == c);
                assert(s@.contains(c));
                assert(find_last(s@, c) == k as int) by {
                    lemma_find_last_props(s@, c);
                    if find_last(s@, c) > k as int {
                        assert(s@[find_last(s@, c)] != c);
                    }
                    if find_last(s@, c) < k as int {
                        assert(s@[k as int] != c);
                    }
                }
            }
            return Some(k);
        }
        proof {
            assert(s@[k as int] != c);
        }
        i = k;
    }
    proof {
        lemma_find_last_props(s@, c);
        if s@.contains(c) {
            let w = choose|j: int| 0 <= j < s@.len() && s@[j] == c;
            assert(s@[w] != c);
        }
    }
    None
}

/// Position of the first occurrence of `c` in `s`.
pub fn find_char(s: &str, c: char) -> (r: Option<usize>)
    ensures
        match r {
            Some(i) => i < s@.len() && find_first(s@, c) == i as int,
            None => find_first(s@, c) == -1,
        },
{
    let n = s.unicode_len();
    let mut i: usize = 0;
    while i < n
        invariant
            i <= n,
            n == s@.len(),
            forall|j: int| 0 <= j < i ==> s@[j] != c,
        decreases n - i,
    {
        if s.get_char(i) == c {
            proof {
                lemma_find_first_props(s@, c);
                assert(s@[i as int] == c);
                assert(s@.contains(c));
                assert(find_first(s@, c) == i as int) by {
                    lemma_find_first_props(s@, c);
                    if find_first(s@, c) < i as int {
                        assert(s@[find_first(s@, c)] != c);
                    }
                    if find_first(s@, c) > i as int {
                        assert(s@[i as int] != c);
                    }
                }
            }
            return Some(i);
        }
        proof {
            assert(s@[i as int] != c);
        }
        i = i + 1;
    }
    proof {
        lemma_find_first_props(s@, c);
        if s@.contains(c) {
            let w = choose|j: int| 0 <= j < s@.len() && s@[j] == c;
            assert(s@[w] != c);
        }
    }
    None
}

pub fn contains_char(s: &str, c: char) -> (b: bool)
    ensures
        b == s@.contains(c),
{
    match find_char(s, c) {
        Some(i) => {
            proof {
                lemma_find_first_props(s@, c);
            }
            true
        },
        None => {
            proof {
                lemma_find_first_props(s@, c);
            }
            false
        },
    }
}

/// Whether every character of `s` is an ASCII digit.
pub fn all_digits(s: &str) -> (b: bool)
    ensures
        b == all_digit_chars(s@),
{
    let n = s.unicode_len();
    let mut i: usize = 0;
    while i < n
        invariant
            i <= n,
            n == s@.len(),
            forall|j: int| 0 <= j < i ==> is_digit_char(#[trigger] s@[j]),
        decreases n - i,
    {
        if !is_ascii_digit_char(s.get_char(i)) {
            return false;
        }
        i = i + 1;
    }
    true
}

/// `str::trim` over the whitespace set above.
pub fn trim_str<'a>(s: &'a str) -> (r: &'a str)
    ensures
        r@ == spec_trim(s@),
{
    let n = s.unicode_len();
    let mut a: usize = 0;
    while a < n && is_space(s.get_char(a))
        invariant
            a <= n,
            n == s@.len(),
            forall|j: int| 0 <= j < a ==> is_space_char(#[trigger] s@[j]),
        decreases n - a,
    {
        a = a + 1;
    }
    if a == n {
        proof {
            lemma_trim_range(s@, n as int, n as int);
        }
        return s.substring_char(n, n);
    }
    let mut b: usize = n;
    while b > a + 1 && is_space(s.get_char(b - 1))
        invariant
            a < b <= n,
            n == s@.len(),
            forall|j: int| b <= j < s@.len() ==> is_space_char(#[trigger] s@[j]),
        decreases b,
    {
        b = b - 1;
    }
    if is_space(s.get_char(b - 1)) {
        // only possible when b == a + 1, contradicting that s[a] is not space
        proof {
            assert(b == a + 1);
            assert(!is_space_char(s@[a as int]));
        }
        return s.substring_char(a, a);
    }
    proof {
        lemma_trim_range(s@, a as int, b as int);
    }
    s.substring_char(a, b)
}

/// A copy of an optional string, equal in value to the original.
pub fn clone_opt_string(o: &Option<String>) -> (r: Option<String>)
    ensures
        r == *o,
{
    match o {
        Some(s) => Some(s.clone()),
        None => None,
    }
}

/// String equality at the character level.
pub fn str_eq(a: &str, b: &str) -> (r: bool)
    ensures
        r == (a@ == b@),
{
    let sa = a.to_owned();
    let sb = b.to_owned();
    sa == sb
}

/// Whether `s` starts with the prefix `p`, and the spec it decides.
pub open spec fn has_prefix(s: Seq<char>, p: Seq<char>) -> bool {
    p.len() <= s.len() && forall|i: int| 0 <= i < p.len() ==> s[i] == #[trigger] p[i]
}

pub fn str_has_prefix(s: &str, p: &str) -> (b: bool)
    ensures
        b == has_prefix(s@, p@),
{
    let np = p.unicode_len();
    let ns = s.unicode_len();
    if np > ns {
        return false;
    }
    let mut i: usize = 0;
    while i < np
        invariant
            i <= np,
            np == p@.len(),
            ns == s@.len(),
            np <= ns,
            forall|j: int| 0 <= j < i ==> s@[j] == #[trigger] p@[j],
        decreases np - i,
    {
        if s.get_char(i) != p.get_char(i) {
            return false;
        }
        i = i + 1;
    }
    true
}

/// Whether `p` occurs contiguously inside `s`.
pub open spec fn has_substring(s: Seq<char>, p: Seq<char>) -> bool {
    exists|i: int| 0 <= i <= s.len() - p.len() && #[trigger] s.subrange(i, i + p.len()) == p
}

/// Whether `s` contains `p` as a substring.
pub fn contains_substr(s: &str, p: &str) -> (b: bool)
    ensures
        b == has_substring(s@, p@),
{
    let n = s.unicode_len();
    let m = p.unicode_len();
    if m == 0 {
        proof {
            assert(s@.subrange(0, 0 + p@.len() as int) =~= p@);
        }
        return true;
    }
    if m > n {
        proof {
            if has_substring(s@, p@) {
                let w = choose|i: int|
                    0 <= i <= s@.len() - p@.len() && #[trigger] s@.subrange(i, i + p@.len()) == p@;
            }
        }
        return false;
    }
    let mut i: usize = 0;
    while i <= n - m
        invariant
            1 <= m <= n,
            n == s@.len(),
            m == p@.len(),
            i <= n - m + 1,
            forall|j: int| 0 <= j < i ==> #[trigger] s@.subrange(j, j + p@.len()) != p@,
        decreases n - i,
    {
        let w = s.substring_char(i, i + m);
        if str_eq(w, p) {
            proof {
                assert(s@.subrange(i as int, i as int + p@.len()) == p@);
            }
            return true;
        }
        i = i + 1;
    }
    proof {
        if has_substring(s@, p@) {
            let j = choose|j: int|
                0 <= j <= s@.len() - p@.len() && #[trigger] s@.subrange(j, j + p@.len()) == p@;
            assert(s@.subrange(j, j + p@.len()) != p@);
        }
    }
    false
}

/// Concatenation of two string slices.
pub fn concat2(a: &str, b: &str) -> (r: String)
    ensures
        r@ == a@ + b@,
{
    let s = a.to_owned();
    s.concat(b)
}

/// Concatenation of three string slices.
pub fn concat3(a: &str, b: &str, c: &str) -> (r: String)
    ensures
        r@ == a@ + b@ + c@,
{
    let s = concat2(a, b);
    s.concat(c)
}

} // verus!
