//! Character-level helpers shared by the parsers and formatters: Unicode
//! whitespace trimming and decimal `i32` text, with their meaning stated on
//! sequences of characters.

use vstd::prelude::*;

verus! {

/// Whether `c` has the Unicode `White_Space` property, as `char::is_whitespace`
/// documents it.
pub open spec fn spec_is_whitespace(c: char) -> bool {
    ||| '\u{9}' <= c <= '\u{d}'
    ||| c == ' '
    ||| c == '\u{85}'
    ||| c == '\u{a0}'
    ||| c == '\u{1680}'
    ||| '\u{2000}' <= c <= '\u{200a}'
    ||| c == '\u{2028}'
    ||| c == '\u{2029}'
    ||| c == '\u{202f}'
    ||| c == '\u{205f}'
    ||| c == '\u{3000}'
}

/// `s` without its leading whitespace.
pub open spec fn trim_start(s: Seq<char>) -> Seq<char>
    decreases s.len(),
{
    if s.len() > 0 && spec_is_whitespace(s[0]) {
        trim_start(s.drop_first())
    } else {
        s
    }
}

/// `s` without its trailing whitespace.
pub open spec fn trim_end(s: Seq<char>) -> Seq<char>
    decreases s.len(),
{
    if s.len() > 0 && spec_is_whitespace(s.last()) {
        trim_end(s.drop_last())
    } else {
        s
    }
}

/// `s` without leading and trailing whitespace, as `str::trim` gives it.
pub open spec fn trim(s: Seq<char>) -> Seq<char> {
    trim_end(trim_start(s))
}

/// Whether `c` is one of `'0'..='9'`.
pub open spec fn is_digit(c: char) -> bool {
    '0' <= c <= '9'
}

/// Whether every character of `s` is a decimal digit.
pub open spec fn all_digits(s: Seq<char>) -> bool {
    forall|i: int| 0 <= i < s.len() ==> is_digit(#[trigger] s[i])
}

/// The number that the digits `s` spell in base ten.
pub open spec fn digits_value(s: Seq<char>) -> nat
    decreases s.len(),
{
    if s.len() == 0 {
        0
    } else {
        digits_value(s.drop_last()) * 10 + ((s.last() as int) - ('0' as int)) as nat
    }
}

/// The value of `s` as `str::parse::<i32>` reads it: an optional `+` or `-`,
/// then one or more decimal digits, and a value that fits in `i32`;
/// anything else is no number.
pub open spec fn spec_parse_i32(s: Seq<char>) -> Option<i32> {
    let negative = s.len() > 0 && s[0] == '-';
    let signed = s.len() > 0 && (s[0] == '-' || s[0] == '+');
    let digits = if signed {
        s.drop_first()
    } else {
        s
    };
    let value: int = if negative {
        -(digits_value(digits) as int)
    } else {
        digits_value(digits) as int
    };
    if digits.len() == 0 || !all_digits(digits) || value < i32::MIN || value > i32::MAX {
        None
    } else {
        Some(value as i32)
    }
}

/// The characters of `s`, in order.
pub fn chars_of(s: &str) -> (chars: Vec<char>)
    ensures
        chars@ == s@,
{
    let mut chars: Vec<char> = Vec::new();
    for c in it: s.chars()
        invariant
            chars@ == it.seq().take(it.index() as int),
    {
        chars.push(c);
    }
    chars
}

/// Whether `c` is whitespace, as `char::is_whitespace` decides it.
pub fn is_whitespace(c: char) -> (result: bool)
    ensures
        result == spec_is_whitespace(c),
{
    ('\u{9}' <= c && c <= '\u{d}') || c == ' ' || c == '\u{85}' || c == '\u{a0}' || c
        == '\u{1680}' || ('\u{2000}' <= c && c <= '\u{200a}') || c == '\u{2028}' || c
        == '\u{2029}' || c == '\u{202f}' || c == '\u{205f}' || c == '\u{3000}'
}

/// Skipping `k` leading whitespace characters, when the next one is not
/// whitespace, is trimming the start.
pub proof fn lemma_trim_start_skip(s: Seq<char>, k: int)
    requires
        0 <= k <= s.len(),
        forall|i: int| 0 <= i < k ==> spec_is_whitespace(#[trigger] s[i]),
        k == s.len() || !spec_is_whitespace(s[k]),
    ensures
        trim_start(s) == s.subrange(k, s.len() as int),
    decreases k,
{
    if k == 0 {
        assert(s.subrange(0, s.len() as int) =~= s);
    } else {
        let t = s.drop_first();
        assert forall|i: int| 0 <= i < k - 1 implies spec_is_whitespace(#[trigger] t[i]) by {
            assert(t[i] == s[i + 1]);
        }
        lemma_trim_start_skip(t, k - 1);
        assert(t.subrange(k - 1, t.len() as int) =~= s.subrange(k, s.len() as int));
    }
}

/// Cutting trailing whitespace from index `k` on, when the character before
/// `k` is not whitespace, is trimming the end.
pub proof fn lemma_trim_end_cut(s: Seq<char>, k: int)
    requires
        0 <= k <= s.len(),
        forall|i: int| k <= i < s.len() ==> spec_is_whitespace(#[trigger] s[i]),
        k == 0 || !spec_is_whitespace(s[k - 1]),
    ensures
        trim_end(s) == s.subrange(0, k),
    decreases s.len() - k,
{
    if k == s.len() {
        assert(s.subrange(0, k) =~= s);
    } else {
        let t = s.drop_last();
        assert forall|i: int| k <= i < t.len() implies spec_is_whitespace(#[trigger] t[i]) by {
            assert(t[i] == s[i]);
        }
        lemma_trim_end_cut(t, k);
        assert(t.subrange(0, k) =~= s.subrange(0, k));
    }
}

/// Bounds `(a, b)` such that `s[a..b]` is `s[start..end]` trimmed.
pub fn trim_bounds(s: &[char], start: usize, end: usize) -> (bounds: (usize, usize))
    requires
        start <= end <= s@.len(),
    ensures
        start <= bounds.0 <= bounds.1 <= end,
        s@.subrange(bounds.0 as int, bounds.1 as int) == trim(
            s@.subrange(start as int, end as int),
        ),
{
    let ghost whole = s@.subrange(start as int, end as int);
    let mut a = start;
    while a < end && is_whitespace(s[a])
        invariant
            start <= a <= end <= s@.len(),
            forall|i: int| start <= i < a ==> spec_is_whitespace(#[trigger] s@[i]),
        decreases end - a,
    {
        a = a + 1;
    }
    proof {
        assert forall|i: int| 0 <= i < a - start implies spec_is_whitespace(#[trigger] whole[i]) by {
            assert(whole[i] == s@[start + i]);
        }
        lemma_trim_start_skip(whole, a - start);
        assert(whole.subrange(a - start, whole.len() as int) =~= s@.subrange(a as int, end as int));
    }
    let ghost front = s@.subrange(a as int, end as int);
    let mut b = end;
    while b > a && is_whitespace(s[b - 1])
        invariant
            start <= a <= b <= end <= s@.len(),
            forall|i: int| b <= i < end ==> spec_is_whitespace(#[trigger] s@[i]),
        decreases b - a,
    {
        b = b - 1;
    }
    proof {
        assert forall|i: int| b - a <= i < front.len() implies spec_is_whitespace(
            #[trigger] front[i],
        ) by {
            assert(front[i] == s@[a + i]);
        }
        lemma_trim_end_cut(front, b - a);
        assert(front.subrange(0, b - a) =~= s@.subrange(a as int, b as int));
    }
    (a, b)
}

/// Largest magnitude an `i32` can have.
const I32_MAGNITUDE_LIMIT: i64 = 2147483648;

/// `value`, or one more than the limit when it passes the limit.
spec fn capped(value: nat) -> int {
    if value > I32_MAGNITUDE_LIMIT {
        I32_MAGNITUDE_LIMIT + 1
    } else {
        value as int
    }
}

/// Reads `s[start..end]` as `str::parse::<i32>` does.
#[verifier::loop_isolation(false)]
pub fn parse_i32_chars(s: &[char], start: usize, end: usize) -> (value: Option<i32>)
    requires
        start <= end <= s@.len(),
    ensures
        value == spec_parse_i32(s@.subrange(start as int, end as int)),
{
    let ghost text = s@.subrange(start as int, end as int);
    if start == end {
        return None;
    }
    let negative = s[start] == '-';
    let signed = negative || s[start] == '+';
    let first = if signed {
        start + 1
    } else {
        start
    };
    let ghost digits = s@.subrange(first as int, end as int);
    assert(signed ==> text.drop_first() =~= digits);
    assert(!signed ==> text =~= digits);
    if first == end {
        return None;
    }
    let mut acc: i64 = 0;
    let mut i = first;
    while i < end
        invariant
            first <= i <= end <= s@.len(),
            digits == s@.subrange(first as int, end as int),
            all_digits(s@.subrange(first as int, i as int)),
            acc == capped(digits_value(s@.subrange(first as int, i as int))),
        decreases end - i,
    {
        let c = s[i];
        if !('0' <= c && c <= '9') {
            assert(digits[i - first] == c);
            return None;
        }
        let d = (c as u32 - '0' as u32) as i64;
        let ghost prefix = s@.subrange(first as int, i as int);
        let ghost next = s@.subrange(first as int, i + 1);
        assert(next.drop_last() =~= prefix);
        assert(next.last() == c);
        if acc <= I32_MAGNITUDE_LIMIT {
            let grown = acc * 10 + d;
            acc = if grown > I32_MAGNITUDE_LIMIT {
                I32_MAGNITUDE_LIMIT + 1
            } else {
                grown
            };
        }
        i = i + 1;
        assert forall|j: int| 0 <= j < next.len() implies is_digit(#[trigger] next[j]) by {
            if j < prefix.len() {
                assert(next[j] == prefix[j]);
            }
        }
    }
    assert(s@.subrange(first as int, i as int) =~= digits);
    let value: i64 = if negative {
        -acc
    } else {
        acc
    };
    if value < -2147483648i64 || value > 2147483647i64 {
        None
    } else {
        Some(value as i32)
    }
}

/// The character of a decimal digit `d` below ten.
pub open spec fn digit_char(d: nat) -> char {
    (48 + d) as char
}

/// The decimal digits of `n`, most significant first, without leading zeros.
pub open spec fn digits_of(n: nat) -> Seq<char>
    decreases n,
{
    if n < 10 {
        seq![digit_char(n)]
    } else {
        digits_of(n / 10).push(digit_char(n % 10))
    }
}

/// The text that `{}` formatting gives an integer.
pub open spec fn decimal_text(v: int) -> Seq<char> {
    if v < 0 {
        seq!['-'] + digits_of((-v) as nat)
    } else {
        digits_of(v as nat)
    }
}

/// The digits of a number spell that number and start with a digit.
pub proof fn lemma_digits_of_value(n: nat)
    ensures
        digits_of(n).len() >= 1,
        all_digits(digits_of(n)),
        digits_value(digits_of(n)) == n,
    decreases n,
{
    if n < 10 {
        assert(digit_char(n) as int == 48 + n);
        let d = digits_of(n);
        assert(d.drop_last() =~= Seq::<char>::empty());
        assert(d.last() == digit_char(n));
        assert(digits_value(d) == digits_value(d.drop_last()) * 10 + ((d.last() as int) - ('0' as int)) as nat);
    } else {
        lemma_digits_of_value(n / 10);
        assert(digit_char(n % 10) as int == 48 + n % 10);
        assert(n == (n / 10) * 10 + n % 10);
        let d = digits_of(n);
        assert(d.drop_last() =~= digits_of(n / 10));
        assert(d.last() == digit_char(n % 10));
        assert(digits_value(d) == digits_value(d.drop_last()) * 10 + ((d.last() as int) - ('0' as int)) as nat);
        assert forall|i: int| 0 <= i < d.len() implies is_digit(#[trigger] d[i]) by {
            if i < d.len() - 1 {
                assert(d[i] == digits_of(n / 10)[i]);
            }
        }
    }
}

/// Reading back the decimal text of an `i32` gives the same number.
pub proof fn lemma_parse_decimal_text(v: i32)
    ensures
        spec_parse_i32(decimal_text(v as int)) == Some(v),
{
    let t = decimal_text(v as int);
    if v < 0 {
        let m = (-(v as int)) as nat;
        lemma_digits_of_value(m);
        assert(t.drop_first() =~= digits_of(m));
    } else {
        lemma_digits_of_value(v as nat);
        assert(is_digit(digits_of(v as nat)[0]));
    }
}

/// Appends the decimal digits of `n` to `out`.
fn push_digits(out: &mut Vec<char>, n: u32)
    ensures
        final(out)@ == old(out)@ + digits_of(n as nat),
    decreases n,
{
    if n >= 10 {
        push_digits(out, n / 10);
    }
    let d = (n % 10) as u8;
    out.push((48u8 + d) as char);
    assert(n >= 10 ==> digits_of(n as nat) == digits_of((n / 10) as nat).push(digit_char((n % 10) as nat)));
}

/// Appends the decimal text of `v` to `out`.
pub fn push_decimal_text(out: &mut Vec<char>, v: i32)
    ensures
        final(out)@ == old(out)@ + decimal_text(v as int),
{
    if v < 0 {
        out.push('-');
        let magnitude: u32 = if v == i32::MIN {
            2147483648u32
        } else {
            (-v) as u32
        };
        push_digits(out, magnitude);
    } else {
        push_digits(out, v as u32);
    }
}

/// `String::push`: appends `c` to the end of `s`.
#[verifier::external_body]
fn string_push(s: &mut String, c: char)
    ensures
        final(s)@ == old(s)@.push(c),
{
    s.push(c);
}

/// A `String` holding exactly `chars`.
pub fn string_from_chars(chars: &Vec<char>) -> (text: String)
    ensures
        text@ == chars@,
{
    let mut text = String::new();
    let mut i: usize = 0;
    while i < chars.len()
        invariant
            i <= chars@.len(),
            text@ == chars@.subrange(0, i as int),
        decreases chars@.len() - i,
    {
        string_push(&mut text, chars[i]);
        assert(chars@.subrange(0, i + 1) =~= chars@.subrange(0, i as int).push(chars@[i as int]));
        i = i + 1;
    }
    assert(chars@.subrange(0, i as int) =~= chars@);
    text
}

/// Whether `needle` occurs in `haystack` starting at index `i`.
pub open spec fn occurs_at(haystack: Seq<char>, needle: Seq<char>, i: int) -> bool {
    0 <= i && i + needle.len() <= haystack.len() && haystack.subrange(i, i + needle.len()) == needle
}

/// Whether `needle` occurs anywhere in `haystack`, as `str::contains` with
/// a string pattern decides it.
pub open spec fn contains_text(haystack: Seq<char>, needle: Seq<char>) -> bool {
    exists|i: int| occurs_at(haystack, needle, i)
}

/// Whether `a` and `b` hold the same characters.
pub fn chars_equal(a: &[char], b: &[char]) -> (equal: bool)
    ensures
        equal == (a@ == b@),
{
    if a.len() != b.len() {
        return false;
    }
    let mut i: usize = 0;
    while i < a.len()
        invariant
            i <= a@.len() == b@.len(),
            forall|j: int| 0 <= j < i ==> a@[j] == b@[j],
        decreases a@.len() - i,
    {
        if a[i] != b[i] {
            return false;
        }
        i = i + 1;
    }
    assert(a@ =~= b@);
    true
}

/// Whether `needle` occurs at index `i` of `haystack`.
fn occurs_at_index(haystack: &[char], needle: &[char], i: usize) -> (found: bool)
    requires
        i + needle@.len() <= haystack@.len(),
    ensures
        found == occurs_at(haystack@, needle@, i as int),
{
    let haystack_len = haystack.len();
    let mut j: usize = 0;
    while j < needle.len()
        invariant
            j <= needle@.len(),
            haystack_len == haystack@.len(),
            i + needle@.len() <= haystack@.len(),
            forall|k: int| 0 <= k < j ==> haystack@[i + k] == needle@[k],
        decreases needle@.len() - j,
    {
        if haystack[i + j] != needle[j] {
            assert(haystack@.subrange(i as int, i + needle@.len())[j as int] != needle@[j as int]);
            return false;
        }
        j = j + 1;
    }
    assert(haystack@.subrange(i as int, i + needle@.len()) =~= needle@);
    true
}

/// Whether `needle` occurs in `haystack`.
pub fn contains_chars(haystack: &[char], needle: &[char]) -> (found: bool)
    ensures
        found == contains_text(haystack@, needle@),
{
    if needle.len() > haystack.len() {
        return false;
    }
    let last = haystack.len() - needle.len();
    let mut i: usize = 0;
    loop
        invariant
            i <= last,
            last + needle@.len() == haystack@.len(),
            forall|k: int| 0 <= k < i ==> !occurs_at(haystack@, needle@, k),
        decreases last - i,
    {
        if occurs_at_index(haystack, needle, i) {
            return true;
        }
        if i == last {
            return false;
        }
        i = i + 1;
    }
}

} // verus!
