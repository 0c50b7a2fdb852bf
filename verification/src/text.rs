//! Text building blocks: exact string comparison, decimal formatting and
//! parsing with the rules of Rust's integer `FromStr`, whitespace
//! trimming, and the std calls that vstd does not specify.

use vstd::prelude::*;

verus! {

// ─── std calls ─────────────────────────────────────────────────────────

/// Unicode upper-casing of a string, as `str::to_uppercase` computes it.
pub uninterp spec fn str_uppercase(s: Seq<char>) -> Seq<char>;

/// Calls `str::to_uppercase`. The contract names its result and claims
/// no more: the Unicode case tables are std's.
#[verifier::external_body]
pub(crate) fn to_uppercase(s: &str) -> (r: String)
    ensures
        r@ == str_uppercase(s@),
{
    s.to_uppercase()
}

/// Unicode whitespace (the `White_Space` property, as `char::is_whitespace`
/// tests it).
pub open spec fn is_white_space(c: char) -> bool {
    let u = c as u32;
    ||| 0x09 <= u <= 0x0d
    ||| u == 0x20
    ||| u == 0x85
    ||| u == 0xa0
    ||| u == 0x1680
    ||| 0x2000 <= u <= 0x200a
    ||| u == 0x2028
    ||| u == 0x2029
    ||| u == 0x202f
    ||| u == 0x205f
    ||| u == 0x3000
}

/// Index of the first character from `i` on that is not whitespace, or
/// the length.
pub open spec fn first_non_white(s: Seq<char>, i: int) -> int
    decreases s.len() - i,
{
    if i >= s.len() {
        s.len() as int
    } else if !is_white_space(s[i]) {
        i
    } else {
        first_non_white(s, i + 1)
    }
}

/// One past the last character before `j` that is not whitespace, or 0.
pub open spec fn end_non_white(s: Seq<char>, j: int) -> int
    decreases j,
{
    if j <= 0 {
        0
    } else if !is_white_space(s[j - 1]) {
        j
    } else {
        end_non_white(s, j - 1)
    }
}

/// `s` without its leading and trailing whitespace.
pub open spec fn str_trim(s: Seq<char>) -> Seq<char> {
    let a = first_non_white(s, 0);
    let b = end_non_white(s, s.len() as int);
    if a < b { s.subrange(a, b) } else { Seq::empty() }
}

/// Text made only of ASCII digits and signs: none of it is whitespace.
pub open spec fn is_numeral_text(s: Seq<char>) -> bool {
    forall|i: int| 0 <= i < s.len() ==> is_digit(#[trigger] s[i]) || s[i] == '-' || s[i] == '+'
}

fn white_space(c: char) -> (r: bool)
    ensures
        r == is_white_space(c),
{
    let u = c as u32;
    (0x09 <= u && u <= 0x0d) || u == 0x20 || u == 0x85 || u == 0xa0 || u == 0x1680 || (0x2000 <= u && u
        <= 0x200a) || u == 0x2028 || u == 0x2029 || u == 0x202f || u == 0x205f || u == 0x3000
}

proof fn lemma_first_non_white(s: Seq<char>, i: int, k: int)
    requires
        0 <= i <= k <= s.len(),
        forall|m: int| i <= m < k ==> is_white_space(#[trigger] s[m]),
        k < s.len() ==> !is_white_space(s[k]),
    ensures
        first_non_white(s, i) == k,
    decreases s.len() - i,
{
    if i < k {
        lemma_first_non_white(s, i + 1, k);
    }
}

proof fn lemma_end_non_white(s: Seq<char>, j: int, k: int)
    requires
        0 <= k <= j <= s.len(),
        forall|m: int| k <= m < j ==> is_white_space(#[trigger] s[m]),
        k > 0 ==> !is_white_space(s[k - 1]),
    ensures
        end_non_white(s, j) == k,
    decreases j,
{
    if k < j {
        lemma_end_non_white(s, j - 1, k);
    }
}

/// The slice of `s` left once leading and trailing whitespace is removed,
/// as `str::trim` gives it; text of ASCII digits and signs comes back
/// unchanged.
pub fn trim(s: &str) -> (r: &str)
    ensures
        r@ == str_trim(s@),
        is_numeral_text(s@) ==> r@ == s@,
{
    let n = s.unicode_len();
    let mut a: usize = 0;
    while a < n
        invariant
            a <= n,
            n == s@.len(),
            forall|m: int| 0 <= m < a ==> is_white_space(#[trigger] s@[m]),
        ensures
            a <= n,
            forall|m: int| 0 <= m < a ==> is_white_space(#[trigger] s@[m]),
            a < n ==> !is_white_space(s@[a as int]),
        decreases n - a,
    {
        if !white_space(s.get_char(a)) {
            break;
        }
        a += 1;
    }
    let mut b: usize = n;
    while b > a
        invariant
            a <= b <= n,
            n == s@.len(),
            forall|m: int| b <= m < n ==> is_white_space(#[trigger] s@[m]),
            a < n ==> !is_white_space(s@[a as int]),
        ensures
            a <= b <= n,
            forall|m: int| b <= m < n ==> is_white_space(#[trigger] s@[m]),
            b > a ==> !is_white_space(s@[b - 1]),
        decreases b,
    {
        if !white_space(s.get_char(b - 1)) {
            break;
        }
        b -= 1;
    }
    proof {
        if a < n {
            assert(!is_white_space(s@[a as int]));
            lemma_first_non_white(s@, 0, a as int);
            if b == a {
                assert(is_white_space(s@[a as int]));
            }
            lemma_end_non_white(s@, n as int, b as int);
        } else {
            lemma_first_non_white(s@, 0, a as int);
            lemma_end_non_white(s@, n as int, 0);
        }
        if is_numeral_text(s@) && n > 0 {
            assert(!is_white_space(s@[0]));
            assert(!is_white_space(s@[n - 1]));
        }
    }
    let r = s.substring_char(a, b);
    proof {
        if is_numeral_text(s@) {
            assert(r@ =~= s@);
        }
    }
    r
}

/// Calls `String::push`: appends one character.
#[verifier::external_body]
pub(crate) fn push_char(s: &mut String, c: char)
    ensures
        final(s)@ == old(s)@.push(c),
{
    s.push(c)
}

// ─── comparison ────────────────────────────────────────────────────────

/// Character-by-character equality of two strings.
pub fn str_eq(a: &str, b: &str) -> (r: bool)
    ensures
        r == (a@ == b@),
{
    let n = a.unicode_len();
    if n != b.unicode_len() {
        return false;
    }
    let mut i: usize = 0;
    while i < n
        invariant
            n == a@.len(),
            n == b@.len(),
            i <= n,
            forall|k: int| 0 <= k < i ==> a@[k] == b@[k],
        decreases n - i,
    {
        if a.get_char(i) != b.get_char(i) {
            return false;
        }
        i += 1;
    }
    assert(a@ =~= b@);
    true
}

/// `s` starts with `p`.
pub open spec fn has_prefix(s: Seq<char>, p: Seq<char>) -> bool {
    p.len() <= s.len() && s.subrange(0, p.len() as int) == p
}

/// Whether `s` begins with `p`.
pub fn starts_with(s: &str, p: &str) -> (r: bool)
    ensures
        r == has_prefix(s@, p@),
{
    let n = p.unicode_len();
    if n > s.unicode_len() {
        return false;
    }
    let mut i: usize = 0;
    while i < n
        invariant
            n == p@.len(),
            n <= s@.len(),
            i <= n,
            forall|k: int| 0 <= k < i ==> s@[k] == p@[k],
        decreases n - i,
    {
        if s.get_char(i) != p.get_char(i) {
            assert(s@.subrange(0, n as int)[i as int] != p@[i as int]);
            return false;
        }
        i += 1;
    }
    assert(s@.subrange(0, n as int) =~= p@);
    true
}

/// A new `String` holding `s`.
pub fn owned(s: &str) -> (r: String)
    ensures
        r@ == s@,
{
    String::from_str(s)
}

// ─── decimal digits ────────────────────────────────────────────────────

/// The ASCII digit for `d` in `0..=9`.
pub open spec fn digit_char(d: int) -> char {
    if d == 0 { '0' }
    else if d == 1 { '1' }
    else if d == 2 { '2' }
    else if d == 3 { '3' }
    else if d == 4 { '4' }
    else if d == 5 { '5' }
    else if d == 6 { '6' }
    else if d == 7 { '7' }
    else if d == 8 { '8' }
    else { '9' }
}

pub open spec fn is_digit(c: char) -> bool {
    '0' <= c <= '9'
}

/// The value of the ASCII digit `c`.
pub open spec fn digit_value(c: char) -> int {
    c as int - '0' as int
}

pub open spec fn all_digits(s: Seq<char>) -> bool {
    forall|i: int| 0 <= i < s.len() ==> is_digit(#[trigger] s[i])
}

/// The number a string of decimal digits spells.
pub open spec fn digits_value(s: Seq<char>) -> nat
    decreases s.len(),
{
    if s.len() == 0 {
        0
    } else {
        (digits_value(s.drop_last()) * 10 + digit_value(s.last())) as nat
    }
}

/// The shortest decimal spelling of `n` (no sign, no leading zeros).
pub open spec fn decimal(n: nat) -> Seq<char>
    decreases n,
{
    if n < 10 {
        seq![digit_char(n as int)]
    } else {
        decimal(n / 10).push(digit_char((n % 10) as int))
    }
}

/// Signed decimal spelling: a `-` before the digits of a negative number.
pub open spec fn signed_decimal(n: int) -> Seq<char> {
    if n < 0 { seq!['-'].add(decimal((-n) as nat)) } else { decimal(n as nat) }
}

/// The number Rust's integer `FromStr` reads from `s`, before its range
/// check: an optional `+` (or, where `signed`, `-`), then at least one
/// ASCII digit, nothing else.
pub open spec fn spec_parse_int(s: Seq<char>, signed: bool) -> Option<int> {
    if s.len() > 0 && (s[0] == '+' || (signed && s[0] == '-')) {
        let body = s.skip(1);
        if body.len() > 0 && all_digits(body) {
            if s[0] == '-' {
                Some(-(digits_value(body) as int))
            } else {
                Some(digits_value(body) as int)
            }
        } else {
            None
        }
    } else if s.len() > 0 && all_digits(s) {
        Some(digits_value(s) as int)
    } else {
        None
    }
}

/// What Rust's `FromStr` for an integer type with range `lo..=hi` gives:
/// the value when it is spelled correctly and in range.
pub open spec fn spec_parse_ranged(s: Seq<char>, signed: bool, lo: int, hi: int) -> Option<int> {
    match spec_parse_int(s, signed) {
        Some(v) => if lo <= v <= hi { Some(v) } else { None },
        None => None,
    }
}

pub proof fn lemma_digit_char(d: int)
    requires
        0 <= d <= 9,
    ensures
        is_digit(digit_char(d)),
        digit_value(digit_char(d)) == d,
{
}

/// The decimal spelling of `n` is a non-empty digit string that reads
/// back as `n`.
pub proof fn lemma_decimal_reads_back(n: nat)
    ensures
        decimal(n).len() > 0,
        all_digits(decimal(n)),
        digits_value(decimal(n)) == n,
        decimal(n)[0] != '+',
        decimal(n)[0] != '-',
    decreases n,
{
    if n < 10 {
        lemma_digit_char(n as int);
        let s = seq![digit_char(n as int)];
        assert(s.drop_last() =~= Seq::<char>::empty());
        assert(s.last() == digit_char(n as int));
        assert(digits_value(s) == digits_value(s.drop_last()) * 10 + digit_value(s.last()));
    } else {
        lemma_decimal_reads_back(n / 10);
        lemma_digit_char((n % 10) as int);
        let s = decimal(n);
        assert(s.drop_last() =~= decimal(n / 10));
        assert(s.last() == digit_char((n % 10) as int));
        assert(digits_value(s) == digits_value(s.drop_last()) * 10 + digit_value(s.last()));
        assert(n == (n / 10) * 10 + n % 10);
        assert(s[0] == decimal(n / 10)[0]);
    }
}

/// Reading back the decimal spelling of an in-range number gives it.
pub proof fn lemma_parse_decimal(n: nat, signed: bool, lo: int, hi: int)
    requires
        lo <= n <= hi,
    ensures
        spec_parse_ranged(decimal(n), signed, lo, hi) == Some(n as int),
{
    lemma_decimal_reads_back(n);
}

/// Reading back the signed decimal spelling of an in-range number gives it.
pub proof fn lemma_parse_signed_decimal(n: int, lo: int, hi: int)
    requires
        lo <= n <= hi,
    ensures
        spec_parse_ranged(signed_decimal(n), true, lo, hi) == Some(n),
{
    if n < 0 {
        let m = (-n) as nat;
        lemma_decimal_reads_back(m);
        let s = signed_decimal(n);
        assert(s.skip(1) =~= decimal(m));
    } else {
        lemma_decimal_reads_back(n as nat);
    }
}

/// The digit for `d` in `0..=9`.
pub fn digit_to_char(d: u64) -> (c: char)
    requires
        d <= 9,
    ensures
        c == digit_char(d as int),
{
    if d == 0 { '0' }
    else if d == 1 { '1' }
    else if d == 2 { '2' }
    else if d == 3 { '3' }
    else if d == 4 { '4' }
    else if d == 5 { '5' }
    else if d == 6 { '6' }
    else if d == 7 { '7' }
    else if d == 8 { '8' }
    else { '9' }
}

/// Appends the decimal spelling of `n`.
pub fn push_decimal(out: &mut String, n: u64)
    ensures
        final(out)@ == old(out)@ + decimal(n as nat),
    decreases n,
{
    if n >= 10 {
        push_decimal(out, n / 10);
    }
    push_char(out, digit_to_char(n % 10));
    proof {
        if n >= 10 {
            assert(decimal(n as nat) == decimal((n / 10) as nat).push(digit_char((n % 10) as int)));
        }
    }
}

/// The decimal spelling of `n`, as `n.to_string()` gives it.
pub fn u64_to_string(n: u64) -> (r: String)
    ensures
        r@ == decimal(n as nat),
{
    let mut s = String::new();
    push_decimal(&mut s, n);
    assert(s@ =~= decimal(n as nat));
    s
}

/// The decimal spelling of a signed number, as `n.to_string()` gives it.
pub fn i64_to_string(n: i64) -> (r: String)
    ensures
        r@ == signed_decimal(n as int),
{
    let mut s = String::new();
    if n < 0 {
        push_char(&mut s, '-');
        let m: u64 = if n == i64::MIN { 9223372036854775808u64 } else { (-n) as u64 };
        push_decimal(&mut s, m);
    } else {
        push_decimal(&mut s, n as u64);
    }
    assert(s@ =~= signed_decimal(n as int));
    s
}

/// The value of an ASCII digit.
fn char_digit(c: char) -> (d: u64)
    requires
        is_digit(c),
    ensures
        d == digit_value(c),
{
    (c as u32 - '0' as u32) as u64
}

/// Reads an integer the way Rust's `FromStr` for an integer type with
/// range `lo..=hi` does (`signed` admits a leading `-`).
pub fn parse_ranged(s: &str, signed: bool, lo: i64, hi: i64) -> (r: Option<i64>)
    requires
        lo <= 0 <= hi,
    ensures
        r is Some <==> spec_parse_ranged(s@, signed, lo as int, hi as int) is Some,
        r matches Some(v) ==> spec_parse_ranged(s@, signed, lo as int, hi as int) == Some(v as int),
{
    let n = s.unicode_len();
    if n == 0 {
        return None;
    }
    let first = s.get_char(0);
    let has_sign = first == '+' || (signed && first == '-');
    let neg = first == '-' && has_sign;
    let start: usize = if has_sign { 1 } else { 0 };
    let ghost body = s@.skip(start as int);
    proof {
        if start == 0 {
            assert(body =~= s@);
        }
    }
    if start >= n {
        return None;
    }
    // `limit` is the magnitude beyond which the value is out of range.
    let limit: u64 = if neg { (-(lo as i128)) as u64 } else { hi as u64 };
    let mut acc: u64 = 0;
    let mut over = false;
    let mut i: usize = start;
    assert(s@.subrange(start as int, start as int) =~= Seq::<char>::empty());
    while i < n
        invariant
            n == s@.len(),
            start <= i <= n,
            start == 0 || start == 1,
            body == s@.skip(start as int),
            all_digits(s@.subrange(start as int, i as int)),
            !over ==> acc as int == digits_value(s@.subrange(start as int, i as int)),
            !over ==> acc <= limit,
            over ==> digits_value(s@.subrange(start as int, i as int)) > limit,
            limit <= 9223372036854775808u64,
            n > 0,
            first == s@[0],
            has_sign == (first == '+' || (signed && first == '-')),
            start == (if has_sign { 1usize } else { 0usize }),
            neg == (first == '-' && has_sign),
            limit == (if neg { -(lo as int) } else { hi as int }),
            lo <= 0 <= hi,
        decreases n - i,
    {
        let c = s.get_char(i);
        if !('0' <= c && c <= '9') {
            proof {
                assert(body[i - start] == c);
                assert(!is_digit(body[i - start]));
                assert(!all_digits(body));
            }
            return None;
        }
        let ghost prev = s@.subrange(start as int, i as int);
        let ghost next = s@.subrange(start as int, i + 1);
        assert(next.drop_last() =~= prev);
        assert(next.last() == c);
        let d = char_digit(c);
        assert(digits_value(next) == digits_value(prev) * 10 + d);
        if !over {
            let next_val: u128 = acc as u128 * 10 + d as u128;
            if next_val > limit as u128 {
                over = true;
            } else {
                acc = next_val as u64;
            }
        } else {
            assert(digits_value(next) >= digits_value(prev)) by (nonlinear_arith)
                requires digits_value(next) == digits_value(prev) * 10 + d, d >= 0;
        }
        i += 1;
    }
    assert(s@.subrange(start as int, n as int) =~= body);
    if over {
        return None;
    }
    if neg {
        Some((-(acc as i128)) as i64)
    } else {
        Some(acc as i64)
    }
}

} // verus!
