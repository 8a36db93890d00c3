//! Character-level text helpers: decimal parsing, substring search and the
//! thousands suffix of request rates.

use vstd::prelude::*;

verus! {

/// The characters of `s`, in order.
pub fn chars_of(s: &str) -> (v: Vec<char>)
    ensures
        v@ == s@,
{
    let n = s.unicode_len();
    let mut v: Vec<char> = Vec::new();
    let mut i: usize = 0;
    while i < n
        invariant
            n == s@.len(),
            i <= n,
            v@ == s@.subrange(0, i as int),
        decreases n - i,
    {
        let c = s.get_char(i);
        v.push(c);
        i = i + 1;
        assert(v@ =~= s@.subrange(0, i as int));
    }
    assert(v@ =~= s@);
    v
}

/// Whether `c` is one of the ASCII digits `0` to `9`.
pub open spec fn is_ascii_digit(c: char) -> bool {
    '0' <= c && c <= '9'
}

/// The value of the ASCII digit `c`.
pub open spec fn digit_value(c: char) -> nat {
    (c as int - '0' as int) as nat
}

/// The value of a sequence of ASCII digits read in base ten.
pub open spec fn decimal_value(s: Seq<char>) -> nat
    decreases s.len(),
{
    if s.len() == 0 {
        0
    } else {
        decimal_value(s.drop_last()) * 10 + digit_value(s.last())
    }
}

/// The digits that `u32`'s `FromStr` reads: the text without one leading `+`.
pub open spec fn unsigned_digits(s: Seq<char>) -> Seq<char> {
    if s.len() > 0 && s[0] == '+' {
        s.drop_first()
    } else {
        s
    }
}

/// What `str::parse::<u32>` gives for `s`: `Some` of the value when, after
/// an optional leading `+`, `s` is a non-empty run of ASCII digits whose
/// value fits in a `u32`; `None` otherwise.
pub open spec fn spec_parse_u32(s: Seq<char>) -> Option<u32> {
    let d = unsigned_digits(s);
    if d.len() > 0 && (forall|i: int| 0 <= i < d.len() ==> #[trigger] is_ascii_digit(d[i]))
        && decimal_value(d) <= u32::MAX {
        Some(decimal_value(d) as u32)
    } else {
        None
    }
}

/// `spec_parse_u32`, with `0` where it gives `None`
/// (`parse().unwrap_or_default()` at type `u32`).
pub open spec fn spec_u32_or_zero(s: Seq<char>) -> u32 {
    match spec_parse_u32(s) {
        Some(v) => v,
        None => 0,
    }
}

proof fn lemma_decimal_value_push(s: Seq<char>, c: char)
    ensures
        decimal_value(s.push(c)) == decimal_value(s) * 10 + digit_value(c),
{
    assert(s.push(c).drop_last() =~= s);
}

/// Parses `s` as a decimal `u32` the way `str::parse::<u32>` does.
pub fn parse_u32(s: &str) -> (res: Option<u32>)
    ensures
        res == spec_parse_u32(s@),
{
    let cs = chars_of(s);
    let n = cs.len();
    let start: usize = if n > 0 && cs[0] == '+' {
        1
    } else {
        0
    };
    let ghost d = unsigned_digits(s@);
    assert(d =~= cs@.subrange(start as int, n as int));
    if start == n {
        return None;
    }
    let mut value: u32 = 0;
    let mut i: usize = start;
    while i < n
        invariant
            cs@ == s@,
            n == cs@.len(),
            start <= i <= n,
            d == cs@.subrange(start as int, n as int),
            d == unsigned_digits(s@),
            forall|k: int| 0 <= k < i - start ==> #[trigger] is_ascii_digit(d[k]),
            value == decimal_value(d.subrange(0, i - start)),
        decreases n - i,
    {
        let c = cs[i];
        assert(c == d[i - start]);
        if !('0' <= c && c <= '9') {
            assert(!is_ascii_digit(d[i - start]));
            return None;
        }
        let dv: u32 = (c as u32) - ('0' as u32);
        proof {
            assert(d.subrange(0, i - start + 1) =~= d.subrange(0, i - start).push(c));
            lemma_decimal_value_push(d.subrange(0, i - start), c);
        }
        if value > 429496729 || (value == 429496729 && dv > 5) {
            proof {
                assert(decimal_value(d.subrange(0, i - start + 1)) > u32::MAX);
                lemma_decimal_value_prefix_bound(d, i - start + 1);
            }
            return None;
        }
        value = value * 10 + dv;
        i = i + 1;
    }
    assert(d.subrange(0, n - start) =~= d);
    Some(value)
}

/// A decimal value never shrinks when more digits follow.
proof fn lemma_decimal_value_prefix_bound(d: Seq<char>, k: int)
    requires
        0 <= k <= d.len(),
    ensures
        decimal_value(d.subrange(0, k)) <= decimal_value(d),
    decreases d.len() - k,
{
    if k < d.len() {
        lemma_decimal_value_prefix_bound(d, k + 1);
        let p = d.subrange(0, k + 1);
        assert(p.drop_last() =~= d.subrange(0, k));
        assert(decimal_value(p) == decimal_value(p.drop_last()) * 10 + digit_value(p.last()));
    } else {
        assert(d.subrange(0, k) =~= d);
    }
}

/// Parses `s` as a `u32`, giving `0` where `str::parse::<u32>` fails.
pub fn parse_u32_or_zero(s: &str) -> (v: u32)
    ensures
        v == spec_u32_or_zero(s@),
{
    match parse_u32(s) {
        Some(v) => v,
        None => 0,
    }
}

/// Whether `needle` occurs in `haystack` as a run of consecutive
/// characters (`str::contains` with a `&str` pattern).
pub open spec fn spec_contains(haystack: Seq<char>, needle: Seq<char>) -> bool {
    exists|i: int|
        0 <= i && i + needle.len() <= haystack.len() && #[trigger] haystack.subrange(
            i,
            i + needle.len(),
        ) == needle
}

/// Whether `needle` occurs at position `at` of `haystack`.
fn occurs_at(haystack: &Vec<char>, needle: &Vec<char>, at: usize) -> (r: bool)
    requires
        at + needle.len() <= haystack.len(),
    ensures
        r == (haystack@.subrange(at as int, at + needle.len()) == needle@),
{
    let mut k: usize = 0;
    while k < needle.len()
        invariant
            at + needle.len() <= haystack.len(),
            k <= needle.len(),
            forall|j: int| 0 <= j < k ==> haystack@[at + j] == needle@[j],
        decreases needle.len() - k,
    {
        if haystack[at + k] != needle[k] {
            assert(haystack@.subrange(at as int, at + needle.len())[k as int] != needle@[k as int]);
            return false;
        }
        k = k + 1;
    }
    assert(haystack@.subrange(at as int, at + needle.len()) =~= needle@);
    true
}

/// Whether `needle` occurs in `haystack`.
pub fn contains_text(haystack: &str, needle: &str) -> (r: bool)
    ensures
        r == spec_contains(haystack@, needle@),
{
    let h = chars_of(haystack);
    let n = chars_of(needle);
    if n.len() == 0 {
        assert(haystack@.subrange(0, 0 + needle@.len() as int) =~= needle@);
        return true;
    }
    if n.len() > h.len() {
        return false;
    }
    let last = h.len() - n.len();
    let mut i: usize = 0;
    while i <= last
        invariant
            h@ == haystack@,
            n@ == needle@,
            n.len() >= 1,
            last + n.len() == h.len(),
            i <= last + 1,
            forall|j: int| 0 <= j < i ==> #[trigger] h@.subrange(j, j + n.len()) != n@,
        decreases last + 1 - i,
    {
        if occurs_at(&h, &n, i) {
            return true;
        }
        i = i + 1;
    }
    false
}

/// `s` with every trailing `k` removed (`str::trim_end_matches("k")`).
pub open spec fn strip_trailing_k(s: Seq<char>) -> Seq<char>
    decreases s.len(),
{
    if s.len() > 0 && s.last() == 'k' {
        strip_trailing_k(s.drop_last())
    } else {
        s
    }
}

/// Whether `s` ends with `k` (`str::ends_with("k")`).
pub open spec fn ends_with_k(s: Seq<char>) -> bool {
    s.len() > 0 && s.last() == 'k'
}

/// Removing the trailing `k`s keeps a prefix of `s` that does not end in
/// `k`, and everything removed is a `k`.
pub proof fn lemma_strip_trailing_k_prefix(s: Seq<char>)
    ensures
        strip_trailing_k(s) == s.subrange(0, strip_trailing_k(s).len() as int),
        strip_trailing_k(s).len() <= s.len(),
        !ends_with_k(strip_trailing_k(s)),
        forall|j: int|
            strip_trailing_k(s).len() <= j < s.len() ==> #[trigger] s[j] == 'k',
    decreases s.len(),
{
    if s.len() > 0 && s.last() == 'k' {
        lemma_strip_trailing_k_prefix(s.drop_last());
        let t = strip_trailing_k(s.drop_last());
        assert(s.drop_last().subrange(0, t.len() as int) =~= s.subrange(0, t.len() as int));
        assert forall|j: int| t.len() <= j < s.len() implies #[trigger] s[j] == 'k' by {
            if j < s.len() - 1 {
                assert(s.drop_last()[j] == s[j]);
            }
        }
    } else {
        assert(s.subrange(0, s.len() as int) =~= s);
    }
}

/// Splits a request-rate column into the number text and whether it ends
/// in the thousands suffix `k`: when `s` ends with `k`, the number is `s`
/// without its trailing `k`s; otherwise it is `s` itself.
pub fn split_thousands_suffix(s: &str) -> (r: (String, bool))
    ensures
        r.1 == ends_with_k(s@),
        r.0@ == (if r.1 {
            strip_trailing_k(s@)
        } else {
            s@
        }),
{
    let cs = chars_of(s);
    let n = cs.len();
    if n == 0 || cs[n - 1] != 'k' {
        return (String::from_str(s), false);
    }
    let mut end: usize = n;
    assert(s@.subrange(0, n as int) =~= s@);
    while end > 0 && cs[end - 1] == 'k'
        invariant
            cs@ == s@,
            end <= n,
            n == cs@.len(),
            strip_trailing_k(s@) == strip_trailing_k(s@.subrange(0, end as int)),
        decreases end,
    {
        assert(s@.subrange(0, end as int).drop_last() =~= s@.subrange(0, end - 1));
        end = end - 1;
    }
    assert(strip_trailing_k(s@.subrange(0, end as int)) == s@.subrange(0, end as int));
    let number = s.substring_char(0, end);
    (String::from_str(number), true)
}

/// Every character of `needle` equals the character of `haystack` that
/// many places after position `i`.
pub open spec fn chars_match_at(haystack: Seq<char>, needle: Seq<char>, i: int) -> bool {
    &&& 0 <= i
    &&& i + needle.len() <= haystack.len()
    &&& forall|j: int| 0 <= j < needle.len() ==> #[trigger] haystack[i + j] == needle[j]
}

/// A needle occurs in a text exactly when, at some position, every
/// character of the needle equals the text's character there.
pub proof fn lemma_contains_char_by_char(haystack: Seq<char>, needle: Seq<char>)
    ensures
        spec_contains(haystack, needle) <==> exists|i: int| #[trigger]
            chars_match_at(haystack, needle, i),
{
    if spec_contains(haystack, needle) {
        let i = choose|i: int|
            0 <= i && i + needle.len() <= haystack.len() && #[trigger] haystack.subrange(
                i,
                i + needle.len(),
            ) == needle;
        assert forall|j: int| 0 <= j < needle.len() implies #[trigger] haystack[i + j] == needle[j] by {
            assert(haystack.subrange(i, i + needle.len())[j] == haystack[i + j]);
        }
        assert(chars_match_at(haystack, needle, i));
    }
    if exists|i: int| #[trigger] chars_match_at(haystack, needle, i) {
        let i = choose|i: int| #[trigger] chars_match_at(haystack, needle, i);
        assert forall|k: int| 0 <= k < needle.len() implies #[trigger] haystack.subrange(
            i,
            i + needle.len(),
        )[k] == needle[k] by {
            assert(haystack[i + k] == needle[k]);
        }
        assert(haystack.subrange(i, i + needle.len()) =~= needle);
    }
}

/// A needle occurs in any text that has it between a prefix and a suffix.
pub proof fn lemma_contains_in_context(before: Seq<char>, needle: Seq<char>, after: Seq<char>)
    ensures
        spec_contains(before + needle + after, needle),
{
    let h = before + needle + after;
    assert(h.subrange(before.len() as int, before.len() + needle.len() as int) =~= needle);
}

/// The empty text holds no digits, so it does not parse.
pub proof fn lemma_parse_u32_empty()
    ensures
        spec_parse_u32(Seq::<char>::empty()) is None,
        spec_parse_u32(seq!['+']) is None,
{
    assert(seq!['+'].drop_first() =~= Seq::<char>::empty());
}

/// A single ASCII digit parses to its value.
pub proof fn lemma_parse_u32_one_digit(c: char)
    requires
        '0' <= c <= '9',
    ensures
        spec_parse_u32(seq![c]) == Some((c as u32 - '0' as u32) as u32),
{
    let s = seq![c];
    assert(s.drop_last() =~= Seq::<char>::empty());
    assert(decimal_value(s) == decimal_value(s.drop_last()) * 10 + digit_value(s.last()));
}

/// Appending a character that is not an ASCII digit never gives a number.
pub proof fn lemma_parse_u32_non_digit(s: Seq<char>, c: char)
    requires
        !('0' <= c <= '9'),
    ensures
        spec_parse_u32(s.push(c)) is None,
{
    let t = s.push(c);
    let d = unsigned_digits(t);
    if d.len() > 0 {
        assert(d[d.len() - 1] == c);
        assert(!is_ascii_digit(d[d.len() - 1]));
    }
}

/// Appending a digit to a text that parses to `v` multiplies `v` by ten and
/// adds the digit, while that fits in a `u32`, and fails beyond.
pub proof fn lemma_parse_u32_append_digit(s: Seq<char>, v: u32, c: char)
    requires
        spec_parse_u32(s) == Some(v),
        '0' <= c <= '9',
    ensures
        v * 10 + (c as int - '0' as int) <= u32::MAX ==> spec_parse_u32(s.push(c)) == Some(
            (v * 10 + (c as int - '0' as int)) as u32,
        ),
        v * 10 + (c as int - '0' as int) > u32::MAX ==> spec_parse_u32(s.push(c)) is None,
{
    let d = unsigned_digits(s);
    let t = s.push(c);
    let e = unsigned_digits(t);
    assert(s.len() > 0);
    if s[0] == '+' {
        assert(e =~= d.push(c));
    } else {
        assert(e =~= d.push(c));
    }
    assert(e.drop_last() =~= d);
    assert(decimal_value(e) == decimal_value(d) * 10 + digit_value(c));
    assert forall|i: int| 0 <= i < e.len() implies #[trigger] is_ascii_digit(e[i]) by {
        if i < d.len() {
            assert(e[i] == d[i]);
        }
    }
}

/// A leading `+` before the digits changes nothing.
pub proof fn lemma_parse_u32_plus(s: Seq<char>)
    requires
        s.len() > 0,
        s[0] != '+',
    ensures
        spec_parse_u32(seq!['+'] + s) == spec_parse_u32(s),
{
    assert((seq!['+'] + s).drop_first() =~= s);
}

/// Reading a count keeps every value that parses and gives `0` otherwise
/// (`unwrap_or_default`).
pub proof fn lemma_u32_or_zero_keeps_parsed(s: Seq<char>)
    ensures
        spec_parse_u32(s) matches Some(v) ==> spec_u32_or_zero(s) == v,
        spec_parse_u32(s) is None ==> spec_u32_or_zero(s) == 0,
{
}

/// The number of a rate column is the column up to its trailing `k`s: it
/// does not end in `k` when the suffix was there, and what follows it in
/// the column is all `k`.
pub proof fn lemma_rate_suffix(s: Seq<char>)
    ensures
        ends_with_k(s) <==> (s.len() > 0 && s[s.len() - 1] == 'k'),
        ({
            let n = strip_trailing_k(s);
            &&& n.len() <= s.len()
            &&& n == s.subrange(0, n.len() as int)
            &&& (n.len() == 0 || n[n.len() - 1] != 'k')
            &&& forall|j: int| n.len() <= j < s.len() ==> #[trigger] s[j] == 'k'
        }),
{
    lemma_strip_trailing_k_prefix(s);
}

/// A text that parses is one or more ASCII digits after at most one
/// leading `+`: no other character occurs in it.
pub proof fn lemma_parse_u32_only_digits(s: Seq<char>)
    requires
        spec_parse_u32(s) is Some,
    ensures
        s.len() > 0,
        s[0] == '+' ==> s.len() > 1,
        forall|i: int| 0 <= i < s.len() && !(i == 0 && s[0] == '+') ==> '0' <= #[trigger] s[i] <= '9',
{
    let d = unsigned_digits(s);
    assert forall|i: int| 0 <= i < s.len() && !(i == 0 && s[0] == '+') implies '0' <= #[trigger] s[i]
        <= '9' by {
        if s[0] == '+' {
            assert(s[i] == d[i - 1]);
            assert(is_ascii_digit(d[i - 1]));
        } else {
            assert(is_ascii_digit(d[i]));
        }
    }
}

} // verus!
