//! Text helpers shared by the protocol code: decimal rendering and parsing
//! of sizes, Unicode whitespace trimming, and conversions between strings and
//! character vectors.
use vstd::prelude::*;
use vstd::string::*;

verus! {

/// Specifies std's `String::push`: the contract claims that afterwards the
/// string holds its former characters followed by `ch`, as the method's
/// documentation ("appends the given char to the end of this String") says.
pub assume_specification[ String::push ](s: &mut String, ch: char)
    ensures
        final(s)@ == old(s)@.push(ch),
;

/// The character of a decimal digit.
pub open spec fn digit_char(d: int) -> char {
    if d == 0 {
        '0'
    } else if d == 1 {
        '1'
    } else if d == 2 {
        '2'
    } else if d == 3 {
        '3'
    } else if d == 4 {
        '4'
    } else if d == 5 {
        '5'
    } else if d == 6 {
        '6'
    } else if d == 7 {
        '7'
    } else if d == 8 {
        '8'
    } else {
        '9'
    }
}

/// The value of a decimal digit character.
pub open spec fn digit_value(c: char) -> int {
    c as int - '0' as int
}

/// An ASCII decimal digit.
pub open spec fn is_digit(c: char) -> bool {
    '0' <= c && c <= '9'
}

/// The decimal rendering of `n`, without sign or leading zeros.
pub open spec fn decimal(n: nat) -> Seq<char>
    decreases n,
{
    if n < 10 {
        seq![digit_char(n as int)]
    } else {
        decimal(n / 10).push(digit_char(n as int % 10))
    }
}

/// The value of a sequence of decimal digits, most significant first.
pub open spec fn digits_value(s: Seq<char>) -> int
    decreases s.len(),
{
    if s.len() == 0 {
        0
    } else {
        10 * digits_value(s.drop_last()) + digit_value(s.last())
    }
}

/// Every character of `s` is a decimal digit.
pub open spec fn all_digits(s: Seq<char>) -> bool {
    forall|i: int| 0 <= i < s.len() ==> is_digit(#[trigger] s[i])
}

/// The value of a non-negative integer written in decimal, as Rust's integer
/// parsing reads it: an optional leading `+` and at least one digit, nothing
/// else. `None` for any other text.
pub open spec fn decimal_text_value(s: Seq<char>) -> Option<int> {
    let digits = sign_stripped(s);
    if digits.len() > 0 && all_digits(digits) {
        Some(digits_value(digits))
    } else {
        None
    }
}

/// `s` without one leading `+`, if it has one.
pub open spec fn sign_stripped(s: Seq<char>) -> Seq<char> {
    if s.len() > 0 && s[0] == '+' {
        s.drop_first()
    } else {
        s
    }
}

/// A Unicode `White_Space` character, the set that `char::is_whitespace`
/// and `str::trim` use.
pub open spec fn is_whitespace(c: char) -> bool {
    ||| '\u{9}' <= c && c <= '\u{d}'
    ||| c == ' '
    ||| c == '\u{85}'
    ||| c == '\u{a0}'
    ||| c == '\u{1680}'
    ||| '\u{2000}' <= c && c <= '\u{200a}'
    ||| c == '\u{2028}'
    ||| c == '\u{2029}'
    ||| c == '\u{202f}'
    ||| c == '\u{205f}'
    ||| c == '\u{3000}'
}

/// `s` without its leading whitespace.
pub open spec fn trim_start(s: Seq<char>) -> Seq<char>
    decreases s.len(),
{
    if s.len() > 0 && is_whitespace(s[0]) {
        trim_start(s.drop_first())
    } else {
        s
    }
}

/// `s` without its trailing whitespace.
pub open spec fn trim_end(s: Seq<char>) -> Seq<char>
    decreases s.len(),
{
    if s.len() > 0 && is_whitespace(s.last()) {
        trim_end(s.drop_last())
    } else {
        s
    }
}

/// `s` without leading and trailing whitespace.
pub open spec fn trim(s: Seq<char>) -> Seq<char> {
    trim_end(trim_start(s))
}

proof fn lemma_digit_round_trip(d: int)
    requires
        0 <= d < 10,
    ensures
        digit_value(digit_char(d)) == d,
        is_digit(digit_char(d)),
{
}

pub proof fn lemma_decimal_digits(n: nat)
    ensures
        decimal(n).len() > 0,
        all_digits(decimal(n)),
        digits_value(decimal(n)) == n,
        decimal(n)[0] != '+',
        !is_whitespace(decimal(n)[0]),
        !is_whitespace(decimal(n).last()),
    decreases n,
{
    lemma_digit_round_trip(n as int % 10);
    if n < 10 {
        let d = decimal(n);
        assert(d.drop_last() =~= Seq::<char>::empty());
        assert(d.last() == digit_char(n as int));
        assert(digits_value(d.drop_last()) == 0);
        assert(digits_value(d) == 10 * digits_value(d.drop_last()) + digit_value(d.last()));
    } else {
        lemma_decimal_digits(n / 10);
        let d = decimal(n);
        assert(d.drop_last() =~= decimal(n / 10));
        assert(d.last() == digit_char(n as int % 10));
        assert(digits_value(d) == 10 * digits_value(d.drop_last()) + digit_value(d.last()));
        assert(n == 10 * (n / 10) + n % 10);
        assert forall|i: int| 0 <= i < d.len() implies is_digit(#[trigger] d[i]) by {
            if i < d.len() - 1 {
                assert(d[i] == decimal(n / 10)[i]);
            }
        }
    }
}

proof fn lemma_digits_have_no_whitespace(s: Seq<char>)
    requires
        all_digits(s),
    ensures
        trim(s) == s,
{
    if s.len() > 0 {
        assert(is_digit(s[0]));
        assert(is_digit(s[s.len() - 1]));
    }
}

/// Decimal text reads back as the number it renders.
pub proof fn decimal_round_trip(n: nat)
    ensures
        decimal_text_value(decimal(n)) == Some(n as int),
        trim(decimal(n)) == decimal(n),
{
    lemma_decimal_digits(n);
    lemma_digits_have_no_whitespace(decimal(n));
}

/// The character of the decimal digit `d`.
fn digit_to_char(d: usize) -> (c: char)
    requires
        d < 10,
    ensures
        c == digit_char(d as int),
{
    match d {
        0 => '0',
        1 => '1',
        2 => '2',
        3 => '3',
        4 => '4',
        5 => '5',
        6 => '6',
        7 => '7',
        8 => '8',
        _ => '9',
    }
}

/// Append the decimal rendering of `n` to `s`.
pub fn push_decimal(s: &mut String, n: usize)
    ensures
        final(s)@ == old(s)@ + decimal(n as nat),
    decreases n,
{
    if n < 10 {
        s.push(digit_to_char(n));
        assert(final(s)@ =~= old(s)@ + decimal(n as nat)) by {
            assert(s@ =~= old(s)@ + decimal(n as nat));
        }
    } else {
        push_decimal(s, n / 10);
        s.push(digit_to_char(n % 10));
        assert(s@ =~= old(s)@ + decimal(n as nat));
    }
}

/// The characters of `s`.
pub fn chars_of(s: &str) -> (v: Vec<char>)
    ensures
        v@ == s@,
{
    let n = s.unicode_len();
    let mut v: Vec<char> = Vec::new();
    for i in 0..n
        invariant
            n == s@.len(),
            v@ == s@.subrange(0, i as int),
    {
        v.push(s.get_char(i));
        assert(v@ =~= s@.subrange(0, i + 1));
    }
    assert(v@ =~= s@);
    v
}

/// The string made of `v[from..to]`.
pub fn string_of(v: &[char], from: usize, to: usize) -> (s: String)
    requires
        from <= to <= v@.len(),
    ensures
        s@ == v@.subrange(from as int, to as int),
{
    let mut s = String::new();
    for i in from..to
        invariant
            to <= v@.len(),
            s@ == v@.subrange(from as int, i as int),
    {
        s.push(v[i]);
        assert(s@ =~= v@.subrange(from as int, i + 1));
    }
    s
}

/// Whether `c` is Unicode whitespace.
pub fn char_is_whitespace(c: char) -> (r: bool)
    ensures
        r == is_whitespace(c),
{
    ('\u{9}' <= c && c <= '\u{d}') || c == ' ' || c == '\u{85}' || c == '\u{a0}' || c
        == '\u{1680}' || ('\u{2000}' <= c && c <= '\u{200a}') || c == '\u{2028}' || c
        == '\u{2029}' || c == '\u{202f}' || c == '\u{205f}' || c == '\u{3000}'
}

proof fn lemma_trim_start_skip(s: Seq<char>, i: int)
    requires
        0 <= i <= s.len(),
        forall|j: int| 0 <= j < i ==> is_whitespace(#[trigger] s[j]),
    ensures
        trim_start(s) == trim_start(s.subrange(i, s.len() as int)),
    decreases i,
{
    if i > 0 {
        assert(s.drop_first() =~= s.subrange(1, s.len() as int));
        lemma_trim_start_skip(s.drop_first(), i - 1);
        assert(s.drop_first().subrange(i - 1, s.drop_first().len() as int) =~= s.subrange(
            i,
            s.len() as int,
        ));
    } else {
        assert(s.subrange(0, s.len() as int) =~= s);
    }
}

proof fn lemma_trim_end_skip(s: Seq<char>, k: int)
    requires
        0 <= k <= s.len(),
        forall|j: int| k <= j < s.len() ==> is_whitespace(#[trigger] s[j]),
    ensures
        trim_end(s) == trim_end(s.subrange(0, k)),
    decreases s.len() - k,
{
    if k < s.len() {
        assert(s.drop_last() =~= s.subrange(0, s.len() - 1));
        lemma_trim_end_skip(s.drop_last(), k);
        assert(s.drop_last().subrange(0, k) =~= s.subrange(0, k));
    } else {
        assert(s.subrange(0, k) =~= s);
    }
}

/// The start of `trim_start(v[from..])`.
pub fn trim_start_bound(v: &[char], from: usize) -> (start: usize)
    requires
        from <= v@.len(),
    ensures
        from <= start <= v@.len(),
        v@.subrange(start as int, v@.len() as int) == trim_start(
            v@.subrange(from as int, v@.len() as int),
        ),
{
    let n = v.len();
    let ghost s = v@.subrange(from as int, n as int);
    let mut start = from;
    while start < n && char_is_whitespace(v[start])
        invariant
            from <= start <= n,
            n == v@.len(),
            s == v@.subrange(from as int, n as int),
            forall|j: int| from <= j < start ==> is_whitespace(#[trigger] v@[j]),
        decreases n - start,
    {
        start = start + 1;
    }
    proof {
        assert forall|j: int| 0 <= j < start - from implies is_whitespace(#[trigger] s[j]) by {
            assert(s[j] == v@[from + j]);
        }
        lemma_trim_start_skip(s, start - from);
        assert(s.subrange(start - from, s.len() as int) =~= v@.subrange(start as int, n as int));
        let t = v@.subrange(start as int, n as int);
        if t.len() > 0 {
            assert(t[0] == v@[start as int]);
        }
        assert(trim_start(t) == t);
    }
    start
}

/// The bounds `[start, end)` of `trim(v[from..])`.
pub fn trim_bounds(v: &[char], from: usize) -> (r: (usize, usize))
    requires
        from <= v@.len(),
    ensures
        from <= r.0 <= r.1 <= v@.len(),
        v@.subrange(r.0 as int, r.1 as int) == trim(v@.subrange(from as int, v@.len() as int)),
{
    let n = v.len();
    let ghost s = v@.subrange(from as int, n as int);
    let mut start = from;
    while start < n && char_is_whitespace(v[start])
        invariant
            from <= start <= n,
            n == v@.len(),
            s == v@.subrange(from as int, n as int),
            forall|j: int| from <= j < start ==> is_whitespace(#[trigger] v@[j]),
        decreases n - start,
    {
        start = start + 1;
    }
    proof {
        assert forall|j: int| 0 <= j < start - from implies is_whitespace(#[trigger] s[j]) by {
            assert(s[j] == v@[from + j]);
        }
        lemma_trim_start_skip(s, start - from);
        assert(s.subrange(start - from, s.len() as int) =~= v@.subrange(start as int, n as int));
        let t = v@.subrange(start as int, n as int);
        if t.len() > 0 {
            assert(t[0] == v@[start as int]);
        }
        assert(trim_start(t) == t);
    }
    let mut end = n;
    while end > start && char_is_whitespace(v[end - 1])
        invariant
            from <= start <= end <= n,
            n == v@.len(),
            forall|j: int| end <= j < n ==> is_whitespace(#[trigger] v@[j]),
        decreases end,
    {
        end = end - 1;
    }
    proof {
        let t = v@.subrange(start as int, n as int);
        assert forall|j: int| end - start <= j < t.len() implies is_whitespace(#[trigger] t[j]) by {
            assert(t[j] == v@[start + j]);
        }
        lemma_trim_end_skip(t, end - start);
        let u = t.subrange(0, end - start);
        assert(u =~= v@.subrange(start as int, end as int));
        if u.len() > 0 {
            assert(u.last() == v@[end - 1]);
        }
        assert(trim_end(u) == u);
    }
    (start, end)
}

/// Parse `v[from..to]` as a decimal `usize` the way `str::parse::<usize>`
/// does: `None` unless it is an optional `+` followed by one or more digits
/// whose value fits in a `usize`.
pub fn parse_usize(v: &[char], from: usize, to: usize) -> (r: Option<usize>)
    requires
        from <= to <= v@.len(),
    ensures
        ({
            let t = v@.subrange(from as int, to as int);
            match decimal_text_value(t) {
                Some(x) => if x <= usize::MAX {
                    r == Some(x as usize)
                } else {
                    r is None
                },
                None => r is None,
            }
        }),
        decimal_text_value(v@.subrange(from as int, to as int)) matches Some(x) ==> x >= 0,
{
    let ghost t = v@.subrange(from as int, to as int);
    proof {
        lemma_digits_value_nonneg(sign_stripped(t));
    }
    let mut start = from;
    if start < to && v[start] == '+' {
        start = start + 1;
    }
    let ghost digits = v@.subrange(start as int, to as int);
    assert(digits =~= sign_stripped(t));
    if start == to {
        return None;
    }
    let mut value: usize = 0;
    let mut overflow = false;
    let mut i = start;
    while i < to
        invariant
            from <= start < to <= v@.len(),
            start <= i <= to,
            digits == v@.subrange(start as int, to as int),
            digits == sign_stripped(t),
            t == v@.subrange(from as int, to as int),
            forall|j: int| start <= j < i ==> is_digit(#[trigger] v@[j]),
            !overflow ==> value == digits_value(v@.subrange(start as int, i as int)),
            overflow ==> digits_value(v@.subrange(start as int, i as int)) > usize::MAX,
        decreases to - i,
    {
        let c = v[i];
        if !('0' <= c && c <= '9') {
            proof {
                assert(!is_digit(digits[i - start]));
            }
            return None;
        }
        let d: usize = (c as u32 - '0' as u32) as usize;
        proof {
            let p = v@.subrange(start as int, i + 1);
            assert(p.drop_last() =~= v@.subrange(start as int, i as int));
            assert(p.last() == c);
            assert(digits_value(p) == 10 * digits_value(p.drop_last()) + digit_value(c));
            assert(digits_value(v@.subrange(start as int, i as int)) >= 0) by {
                lemma_digits_value_nonneg(v@.subrange(start as int, i as int));
            }
        }
        if !overflow {
            if value > (usize::MAX - d) / 10 {
                overflow = true;
            } else {
                value = value * 10 + d;
            }
        }
        i = i + 1;
    }
    proof {
        assert(all_digits(digits)) by {
            assert forall|j: int| 0 <= j < digits.len() implies is_digit(#[trigger] digits[j]) by {
                assert(digits[j] == v@[start + j]);
            }
        }
    }
    if overflow {
        None
    } else {
        Some(value)
    }
}

/// `s` begins with `p`.
pub open spec fn has_prefix(s: Seq<char>, p: Seq<char>) -> bool {
    p.len() <= s.len() && s.subrange(0, p.len() as int) == p
}

/// Whether `s` begins with `p`.
pub fn starts_with(s: &[char], p: &[char]) -> (b: bool)
    ensures
        b == has_prefix(s@, p@),
{
    if p.len() > s.len() {
        return false;
    }
    let mut i: usize = 0;
    while i < p.len()
        invariant
            p@.len() <= s@.len(),
            i <= p@.len(),
            forall|j: int| 0 <= j < i ==> p@[j] == s@[j],
        decreases p@.len() - i,
    {
        if p[i] != s[i] {
            assert(s@.subrange(0, p@.len() as int)[i as int] != p@[i as int]);
            return false;
        }
        i = i + 1;
    }
    assert(s@.subrange(0, p@.len() as int) =~= p@);
    true
}

/// `s` without its trailing `/` characters (`str::trim_end_matches('/')`).
pub open spec fn without_trailing_slashes(s: Seq<char>) -> Seq<char>
    decreases s.len(),
{
    if s.len() > 0 && s.last() == '/' {
        without_trailing_slashes(s.drop_last())
    } else {
        s
    }
}

/// A base URL without its trailing slashes, so paths can be appended.
pub fn trim_trailing_slashes(s: &str) -> (r: String)
    ensures
        r@ == without_trailing_slashes(s@),
{
    let v = chars_of(s);
    let mut end = v.len();
    assert(v@.subrange(0, end as int) =~= v@);
    while end > 0 && v[end - 1] == '/'
        invariant
            end <= v@.len(),
            without_trailing_slashes(v@) == without_trailing_slashes(v@.subrange(0, end as int)),
        decreases end,
    {
        assert(v@.subrange(0, end - 1) =~= v@.subrange(0, end as int).drop_last());
        end = end - 1;
    }
    string_of(v.as_slice(), 0, end)
}

/// The text of `s`, unless it is blank (empty or only whitespace).
pub fn nonblank(s: String) -> (r: Option<String>)
    ensures
        r is None <==> trim(s@).len() == 0,
        r matches Some(t) ==> t@ == s@,
{
    let v = chars_of(s.as_str());
    let (start, end) = trim_bounds(v.as_slice(), 0);
    assert(v@.subrange(0, v@.len() as int) =~= s@);
    if start == end {
        None
    } else {
        Some(s)
    }
}

proof fn lemma_digits_value_nonneg(s: Seq<char>)
    ensures
        all_digits(s) ==> digits_value(s) >= 0,
    decreases s.len(),
{
    if s.len() > 0 {
        lemma_digits_value_nonneg(s.drop_last());
        if all_digits(s) {
            assert(all_digits(s.drop_last())) by {
                assert forall|j: int| 0 <= j < s.drop_last().len() implies is_digit(
                    #[trigger] s.drop_last()[j],
                ) by {
                    assert(s.drop_last()[j] == s[j]);
                }
            }
            assert(is_digit(s[s.len() - 1]));
        }
    }
}

} // verus!
