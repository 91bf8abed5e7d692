//! Text handling over sequences of characters.
use vstd::prelude::*;
use vstd::string::*;
use vstd::utf8::*;

verus! {

/// `String::push` appends one character to the end of a string.
pub assume_specification[ String::push ](s: &mut String, c: char)
    ensures
        final(s)@ == old(s)@.push(c),
;

// ---------------------------------------------------------------------------
// Equality and conversion
// ---------------------------------------------------------------------------
/// Two strings hold the same characters.
pub fn str_eq(a: &str, b: &str) -> (r: bool)
    ensures
        r == (a@ == b@),
{
    let x = a.as_bytes();
    let y = b.as_bytes();
    proof {
        encode_utf8_decode_utf8(a@);
        encode_utf8_decode_utf8(b@);
    }
    if x.len() != y.len() {
        return false;
    }
    let mut i: usize = 0;
    while i < x.len()
        invariant
            i <= x.len(),
            x.len() == y.len(),
            x@ == encode_utf8(a@),
            y@ == encode_utf8(b@),
            forall|k: int| 0 <= k < i ==> x@[k] == y@[k],
        decreases x.len() - i,
    {
        if x[i] != y[i] {
            return false;
        }
        i += 1;
    }
    assert(x@ =~= y@);
    true
}

/// The characters of a string.
pub fn chars_of(s: &str) -> (r: Vec<char>)
    ensures
        r@ == s@,
{
    let mut v: Vec<char> = Vec::new();
    for c in it: s.chars()
        invariant
            v@ == it.seq().take(it.index() as int),
            it.seq() == s@,
    {
        v.push(c);
    }
    v
}

/// The string made of `chars[from..to]`.
pub fn string_of(chars: &Vec<char>, from: usize, to: usize) -> (r: String)
    requires
        from <= to <= chars@.len(),
    ensures
        r@ == chars@.subrange(from as int, to as int),
{
    let mut s = String::new();
    let mut i: usize = from;
    while i < to
        invariant
            from <= i <= to <= chars@.len(),
            s@ == chars@.subrange(from as int, i as int),
        decreases to - i,
    {
        s.push(chars[i]);
        i += 1;
        assert(chars@.subrange(from as int, i as int) =~= chars@.subrange(from as int, i - 1).push(
            chars@[i - 1],
        ));
    }
    s
}

/// The UTF-8 length of a string, in bytes.
pub fn byte_len(s: &str) -> (r: usize)
    ensures
        r == encode_utf8(s@).len(),
{
    s.as_bytes().len()
}

/// `a` followed by `b`.
pub fn join(a: &str, b: &str) -> (r: String)
    ensures
        r@ == a@ + b@,
{
    let s = a.to_owned();
    s.concat(b)
}

// ---------------------------------------------------------------------------
// White space
// ---------------------------------------------------------------------------
/// The Unicode `White_Space` property.
pub open spec fn white_space(c: char) -> bool {
    ||| '\u{9}' <= c <= '\u{d}'
    ||| c == '\u{20}'
    ||| c == '\u{85}'
    ||| c == '\u{a0}'
    ||| c == '\u{1680}'
    ||| '\u{2000}' <= c <= '\u{200a}'
    ||| c == '\u{2028}'
    ||| c == '\u{2029}'
    ||| c == '\u{202f}'
    ||| c == '\u{205f}'
    ||| c == '\u{3000}'
}

/// `s` without its leading white space.
pub open spec fn trimmed_start(s: Seq<char>) -> Seq<char>
    decreases s.len(),
{
    if s.len() > 0 && white_space(s[0]) {
        trimmed_start(s.drop_first())
    } else {
        s
    }
}

/// `s` without its trailing white space.
pub open spec fn trimmed_end(s: Seq<char>) -> Seq<char>
    decreases s.len(),
{
    if s.len() > 0 && white_space(s.last()) {
        trimmed_end(s.drop_last())
    } else {
        s
    }
}

/// `s` without leading and trailing white space.
pub open spec fn trimmed(s: Seq<char>) -> Seq<char> {
    trimmed_end(trimmed_start(s))
}

/// `s` without any run of `c` at its end.
pub open spec fn without_trailing(s: Seq<char>, c: char) -> Seq<char>
    decreases s.len(),
{
    if s.len() > 0 && s.last() == c {
        without_trailing(s.drop_last(), c)
    } else {
        s
    }
}

/// An upstream address as it is stored: trimmed, with no trailing slash.
pub open spec fn trimmed_url(s: Seq<char>) -> Seq<char> {
    without_trailing(trimmed(s), '/')
}

/// Whether `c` has the Unicode `White_Space` property.
pub fn is_white_space(c: char) -> (r: bool)
    ensures
        r == white_space(c),
{
    ('\u{9}' <= c && c <= '\u{d}') || c == '\u{20}' || c == '\u{85}' || c == '\u{a0}' || c
        == '\u{1680}' || ('\u{2000}' <= c && c <= '\u{200a}') || c == '\u{2028}' || c == '\u{2029}'
        || c == '\u{202f}' || c == '\u{205f}' || c == '\u{3000}'
}

/// Index of the first character of `chars[from..to]` that is not white space.
fn skip_space(chars: &Vec<char>, from: usize, to: usize) -> (r: usize)
    requires
        from <= to <= chars@.len(),
    ensures
        from <= r <= to,
        trimmed_start(chars@.subrange(from as int, to as int)) == chars@.subrange(
            r as int,
            to as int,
        ),
{
    let mut i: usize = from;
    while i < to && is_white_space(chars[i])
        invariant
            from <= i <= to <= chars@.len(),
            trimmed_start(chars@.subrange(from as int, to as int)) == trimmed_start(
                chars@.subrange(i as int, to as int),
            ),
        decreases to - i,
    {
        assert(chars@.subrange(i as int, to as int).drop_first() =~= chars@.subrange(
            i + 1,
            to as int,
        ));
        i += 1;
    }
    i
}

/// End of `chars[from..to]` once its trailing white space is left out.
fn drop_space(chars: &Vec<char>, from: usize, to: usize) -> (r: usize)
    requires
        from <= to <= chars@.len(),
    ensures
        from <= r <= to,
        trimmed_end(chars@.subrange(from as int, to as int)) == chars@.subrange(
            from as int,
            r as int,
        ),
{
    let mut i: usize = to;
    while i > from && is_white_space(chars[i - 1])
        invariant
            from <= i <= to <= chars@.len(),
            trimmed_end(chars@.subrange(from as int, to as int)) == trimmed_end(
                chars@.subrange(from as int, i as int),
            ),
        decreases i,
    {
        assert(chars@.subrange(from as int, i as int).drop_last() =~= chars@.subrange(
            from as int,
            i - 1,
        ));
        i -= 1;
    }
    i
}

/// The string without its leading white space.
pub fn trim_start(s: &str) -> (r: String)
    ensures
        r@ == trimmed_start(s@),
{
    let chars = chars_of(s);
    let to: usize = chars.len();
    assert(chars@.subrange(0, to as int) =~= s@);
    let from: usize = skip_space(&chars, 0, to);
    string_of(&chars, from, to)
}

/// The string without leading and trailing white space.
pub fn trim(s: &str) -> (r: String)
    ensures
        r@ == trimmed(s@),
{
    let chars = chars_of(s);
    let to: usize = chars.len();
    assert(chars@.subrange(0, to as int) =~= s@);
    let from: usize = skip_space(&chars, 0, to);
    let end: usize = drop_space(&chars, from, to);
    string_of(&chars, from, end)
}

/// An upstream address trimmed and without its trailing slashes.
pub fn trim_url(s: &str) -> (r: String)
    ensures
        r@ == trimmed_url(s@),
{
    let bare = trim(s);
    let chars = chars_of(bare.as_str());
    let mut to: usize = chars.len();
    assert(chars@.subrange(0, to as int) =~= bare@);
    while to > 0 && chars[to - 1] == '/'
        invariant
            to <= chars@.len(),
            without_trailing(chars@.subrange(0, to as int), '/') == trimmed_url(s@),
        decreases to,
    {
        assert(chars@.subrange(0, to as int).drop_last() =~= chars@.subrange(0, to - 1));
        to -= 1;
    }
    string_of(&chars, 0, to)
}

// ---------------------------------------------------------------------------
// Prefixes and substrings
// ---------------------------------------------------------------------------
/// `p` opens `s`.
pub open spec fn opens_with(s: Seq<char>, p: Seq<char>) -> bool {
    p.len() <= s.len() && s.subrange(0, p.len() as int) == p
}

/// `p` stands in `s` at index `i`.
pub open spec fn stands_at(s: Seq<char>, p: Seq<char>, i: int) -> bool {
    0 <= i && i + p.len() <= s.len() && s.subrange(i, i + p.len()) == p
}

/// `p` stands somewhere in `s`.
pub open spec fn occurs_in(p: Seq<char>, s: Seq<char>) -> bool {
    exists|i: int| stands_at(s, p, i)
}

/// Whether `p` stands in `s` at index `i`.
fn match_at(s: &Vec<char>, p: &Vec<char>, i: usize) -> (r: bool)
    requires
        i + p@.len() <= s@.len(),
    ensures
        r == stands_at(s@, p@, i as int),
{
    let mut k: usize = 0;
    while k < p.len()
        invariant
            k <= p@.len(),
            i + p@.len() <= s.len(),
            forall|q: int| 0 <= q < k ==> s@[i + q] == p@[q],
        decreases p.len() - k,
    {
        if s[i + k] != p[k] {
            assert(s@.subrange(i as int, i + p@.len())[k as int] != p@[k as int]);
            return false;
        }
        k += 1;
    }
    assert(s@.subrange(i as int, i + p@.len()) =~= p@);
    true
}

/// What follows `prefix` in `s`, when `s` opens with it.
pub fn strip_prefix(s: &str, prefix: &str) -> (r: Option<String>)
    ensures
        match r {
            Some(rest) => opens_with(s@, prefix@) && rest@ == s@.skip(prefix@.len() as int),
            None => !opens_with(s@, prefix@),
        },
{
    let chars = chars_of(s);
    let p = chars_of(prefix);
    if p.len() <= chars.len() && match_at(&chars, &p, 0) {
        assert(chars@.subrange(p@.len() as int, chars@.len() as int) =~= s@.skip(
            prefix@.len() as int,
        ));
        Some(string_of(&chars, p.len(), chars.len()))
    } else {
        None
    }
}

/// Whether `p` stands somewhere in `s`.
pub fn contains(s: &str, p: &str) -> (r: bool)
    ensures
        r == occurs_in(p@, s@),
{
    let chars = chars_of(s);
    let pat = chars_of(p);
    if pat.len() > chars.len() {
        return false;
    }
    let last: usize = chars.len() - pat.len();
    let mut i: usize = 0;
    while i <= last
        invariant
            i <= last + 1,
            last + pat@.len() == chars@.len(),
            chars@ == s@,
            pat@ == p@,
            forall|k: int| 0 <= k < i ==> !stands_at(s@, p@, k),
        decreases last + 1 - i,
    {
        if match_at(&chars, &pat, i) {
            assert(stands_at(s@, p@, i as int));
            return true;
        }
        if i == last {
            return false;
        }
        i += 1;
    }
    false
}

// ---------------------------------------------------------------------------
// Decimal numbers
// ---------------------------------------------------------------------------
/// An ASCII decimal digit.
pub open spec fn is_digit(c: char) -> bool {
    '0' <= c <= '9'
}

/// The number a digit stands for.
pub open spec fn digit_value(c: char) -> nat {
    (c as int - '0' as int) as nat
}

/// The digit that stands for a number below ten.
pub open spec fn digit_char(d: nat) -> char {
    (d + '0' as int) as char
}

/// Every character is a digit.
pub open spec fn all_digits(s: Seq<char>) -> bool {
    forall|i: int| 0 <= i < s.len() ==> is_digit(#[trigger] s[i])
}

/// The number that a run of digits stands for.
pub open spec fn digits_value(s: Seq<char>) -> nat
    decreases s.len(),
{
    if s.len() == 0 {
        0
    } else {
        10 * digits_value(s.drop_last()) + digit_value(s.last())
    }
}

/// The decimal digits of a number, without leading zeros.
pub open spec fn decimal(n: nat) -> Seq<char>
    decreases n,
{
    if n < 10 {
        seq![digit_char(n)]
    } else {
        decimal(n / 10).push(digit_char(n % 10))
    }
}

/// What a run of digits says, when it is a number below two to the sixty-fourth.
pub open spec fn plain_u64(s: Seq<char>) -> Option<u64> {
    if s.len() > 0 && all_digits(s) && digits_value(s) <= u64::MAX {
        Some(digits_value(s) as u64)
    } else {
        None
    }
}

/// What a number text says: digits, after an optional plus sign.
pub open spec fn signed_plain_u64(s: Seq<char>) -> Option<u64> {
    if s.len() > 0 && s[0] == '+' {
        plain_u64(s.drop_first())
    } else {
        plain_u64(s)
    }
}

/// Longer runs of digits never stand for smaller numbers.
proof fn digits_value_grows(s: Seq<char>, i: int, j: int)
    requires
        0 <= i <= j <= s.len(),
    ensures
        digits_value(s.take(i)) <= digits_value(s.take(j)),
    decreases j - i,
{
    if i < j {
        digits_value_grows(s, i, j - 1);
        assert(s.take(j).drop_last() =~= s.take(j - 1));
    }
}

/// The number that `chars[from..]` stands for, when it is all digits and fits.
fn parse_from(chars: &Vec<char>, from: usize) -> (r: Option<u64>)
    requires
        from <= chars@.len(),
    ensures
        r == plain_u64(chars@.skip(from as int)),
{
    let ghost s = chars@.skip(from as int);
    if from == chars.len() {
        return None;
    }
    let mut value: u128 = 0;
    let mut i: usize = from;
    let mut fits: bool = true;
    while i < chars.len()
        invariant
            from <= i <= chars@.len(),
            s == chars@.skip(from as int),
            forall|k: int| 0 <= k < i - from ==> is_digit(#[trigger] s[k]),
            fits ==> value == digits_value(s.take(i - from)) && value <= u64::MAX,
            !fits ==> digits_value(s.take(i - from)) > u64::MAX,
        decreases chars.len() - i,
    {
        let c = chars[i];
        assert(c == s[i - from]);
        if !('0' <= c && c <= '9') {
            return None;
        }
        let d: u128 = (c as u32 - '0' as u32) as u128;
        proof {
            assert(s.take(i + 1 - from).drop_last() =~= s.take(i - from));
            assert(s.take(i + 1 - from).last() == c);
            digits_value_grows(s, i - from, i + 1 - from);
        }
        if fits {
            value = value * 10 + d;
            if value > u64::MAX as u128 {
                fits = false;
            }
        }
        i += 1;
    }
    assert(s.take(i - from) =~= s);
    if fits {
        Some(value as u64)
    } else {
        None
    }
}

/// Reads a run of digits.
pub fn parse_plain_u64(s: &str) -> (r: Option<u64>)
    ensures
        r == plain_u64(s@),
{
    let chars = chars_of(s);
    assert(chars@.skip(0) =~= s@);
    parse_from(&chars, 0)
}

/// Reads digits after an optional plus sign.
pub fn parse_u64(s: &str) -> (r: Option<u64>)
    ensures
        r == signed_plain_u64(s@),
{
    let chars = chars_of(s);
    if chars.len() > 0 && chars[0] == '+' {
        assert(chars@.skip(1) =~= s@.drop_first());
        parse_from(&chars, 1)
    } else {
        assert(chars@.skip(0) =~= s@);
        parse_from(&chars, 0)
    }
}

/// Writes a number in decimal.
pub fn to_decimal(n: u128) -> (r: String)
    ensures
        r@ == decimal(n as nat),
    decreases n,
{
    let d: u8 = (n % 10) as u8;
    let c: char = (48 + d) as char;
    assert(c == digit_char((n % 10) as nat));
    let mut s = if n < 10 {
        String::new()
    } else {
        to_decimal(n / 10)
    };
    s.push(c);
    assert(n < 10 ==> s@ =~= seq![digit_char(n as nat)]);
    s
}

/// The decimal digits of a number stand for that number.
pub proof fn decimal_reads_back(n: nat)
    ensures
        all_digits(decimal(n)),
        decimal(n).len() > 0,
        digits_value(decimal(n)) == n,
    decreases n,
{
    if n < 10 {
        let s = decimal(n);
        assert(s =~= seq![digit_char(n)]);
        assert(s.drop_last() =~= Seq::<char>::empty());
        assert(digits_value(s.drop_last()) == 0);
    } else {
        decimal_reads_back(n / 10);
        assert(decimal(n).drop_last() =~= decimal(n / 10));
    }
}

// ---------------------------------------------------------------------------
// Laws
// ---------------------------------------------------------------------------
/// The characters that count as white space, by their code points.
pub proof fn white_space_is_unicodes(c: char, r: bool)
    requires
        call_ensures(is_white_space, (c,), r),
    ensures
        r <==> {
            ||| 9 <= c as int <= 13
            ||| c as int == 32
            ||| c as int == 133
            ||| c as int == 160
            ||| c as int == 5760
            ||| 8192 <= c as int <= 8202
            ||| c as int == 8232
            ||| c as int == 8233
            ||| c as int == 8239
            ||| c as int == 8287
            ||| c as int == 12288
        },
{
}

proof fn trimmed_start_cuts(s: Seq<char>) -> (n: int)
    ensures
        0 <= n <= s.len(),
        trimmed_start(s) == s.skip(n),
        forall|i: int| 0 <= i < n ==> white_space(#[trigger] s[i]),
        n < s.len() ==> !white_space(s[n]),
    decreases s.len(),
{
    if s.len() > 0 && white_space(s[0]) {
        let rest = s.drop_first();
        let m = trimmed_start_cuts(rest);
        assert(rest.skip(m) =~= s.skip(m + 1));
        assert forall|i: int| 0 <= i < m + 1 implies white_space(#[trigger] s[i]) by {
            if i > 0 {
                assert(rest[i - 1] == s[i]);
            }
        }
        if m < rest.len() {
            assert(rest[m] == s[m + 1]);
        }
        m + 1
    } else {
        assert(s.skip(0) =~= s);
        0
    }
}

proof fn trimmed_end_cuts(s: Seq<char>) -> (n: int)
    ensures
        0 <= n <= s.len(),
        trimmed_end(s) == s.take(n),
        forall|i: int| n <= i < s.len() ==> white_space(#[trigger] s[i]),
        n > 0 ==> !white_space(s[n - 1]),
    decreases s.len(),
{
    if s.len() > 0 && white_space(s.last()) {
        let rest = s.drop_last();
        let m = trimmed_end_cuts(rest);
        assert(rest.take(m) =~= s.take(m));
        assert forall|i: int| m <= i < s.len() implies white_space(#[trigger] s[i]) by {
            if i < rest.len() {
                assert(rest[i] == s[i]);
            }
        }
        if m > 0 {
            assert(rest[m - 1] == s[m - 1]);
        }
        m
    } else {
        assert(s.take(s.len() as int) =~= s);
        s.len() as int
    }
}

/// Trimming takes white space off both ends, all of it, and nothing else: what
/// was cut is `s` up to `cut.0` and from `cut.1` on.
pub proof fn trimming_takes_only_the_ends(s: &str, r: String) -> (cut: (int, int))
    requires
        call_ensures(trim, (s,), r),
    ensures
        0 <= cut.0 <= cut.1 <= s@.len(),
        r@ == s@.subrange(cut.0, cut.1),
        forall|i: int|
            0 <= i < cut.0 || cut.1 <= i < s@.len() ==> white_space(#[trigger] s@[i]),
        r@.len() > 0 ==> !white_space(r@[0]) && !white_space(r@.last()),
{
    let a = trimmed_start_cuts(s@);
    let mid = s@.skip(a);
    let b = trimmed_end_cuts(mid);
    assert(mid.take(b) =~= s@.subrange(a, a + b));
    assert forall|i: int| 0 <= i < a || a + b <= i < s@.len() implies white_space(
        #[trigger] s@[i],
    ) by {
        if i >= a + b {
            assert(mid[i - a] == s@[i]);
        }
    }
    if r@.len() > 0 {
        assert(r@[0] == mid[0]);
        assert(mid[0] == s@[a]);
        assert(r@.last() == mid[b - 1]);
    }
    (a, a + b)
}

proof fn without_trailing_cuts(s: Seq<char>, c: char)
    ensures
        without_trailing(s, c).len() <= s.len(),
        without_trailing(s, c) == s.take(without_trailing(s, c).len() as int),
        forall|i: int| without_trailing(s, c).len() <= i < s.len() ==> #[trigger] s[i] == c,
        without_trailing(s, c).len() > 0 ==> without_trailing(s, c).last() != c,
    decreases s.len(),
{
    if s.len() > 0 && s.last() == c {
        let rest = s.drop_last();
        without_trailing_cuts(rest, c);
        let n = without_trailing(s, c).len();
        assert(rest.take(n as int) =~= s.take(n as int));
        assert forall|i: int| n <= i < s.len() implies #[trigger] s[i] == c by {
            if i < rest.len() {
                assert(rest[i] == s[i]);
            }
        }
    } else {
        assert(s.take(s.len() as int) =~= s);
    }
}

/// An address is trimmed like any text, and then every slash at its end goes, and
/// nothing else.
pub proof fn an_address_loses_its_last_slashes(s: &str, bare: String, r: String)
    requires
        call_ensures(trim, (s,), bare),
        call_ensures(trim_url, (s,), r),
    ensures
        r@.len() <= bare@.len(),
        r@ == bare@.take(r@.len() as int),
        forall|i: int| r@.len() <= i < bare@.len() ==> #[trigger] bare@[i] == '/',
        r@.len() > 0 ==> r@.last() != '/',
{
    without_trailing_cuts(bare@, '/');
}

/// A number in decimal is its digits: one character for a number below ten, and
/// for any other the number without its last digit, followed by that digit.
pub proof fn a_number_is_written_digit_by_digit(n: u128, d: u128, m: u128, a: String, b: String)
    requires
        call_ensures(to_decimal, (n,), a),
        call_ensures(to_decimal, (m,), b),
        d < 10,
        m == 10 * n + d,
    ensures
        b@.last() as int == 48 + d,
        n > 0 ==> b@.drop_last() == a@,
        n == 0 ==> b@.len() == 1,
{
    assert(m / 10 == n) by (nonlinear_arith)
        requires
            m == 10 * n + d,
            d < 10,
    ;
    assert(m % 10 == d) by (nonlinear_arith)
        requires
            m == 10 * n + d,
            d < 10,
    ;
    assert(digit_char(d as nat) as int == 48 + d);
    if n > 0 {
        assert(decimal(m as nat).drop_last() =~= decimal(n as nat));
    }
}

/// Whatever number is written, the same number is read back, where it fits; with
/// a plus sign before it, only where one may stand there.
pub proof fn a_written_number_reads_back(
    n: u128,
    text: String,
    s: &str,
    t: &str,
    plain: Option<u64>,
    signed: Option<u64>,
    plain_plus: Option<u64>,
    signed_plus: Option<u64>,
)
    requires
        call_ensures(to_decimal, (n,), text),
        s@ == text@,
        t@ == seq!['+'] + text@,
        call_ensures(parse_plain_u64, (s,), plain),
        call_ensures(parse_u64, (s,), signed),
        call_ensures(parse_plain_u64, (t,), plain_plus),
        call_ensures(parse_u64, (t,), signed_plus),
    ensures
        n <= u64::MAX ==> plain == Some(n as u64) && signed == Some(n as u64) && signed_plus == Some(
            n as u64,
        ),
        n > u64::MAX ==> plain is None && signed is None && signed_plus is None,
        plain_plus is None,
{
    decimal_reads_back(n as nat);
    assert(t@.drop_first() =~= text@);
    assert(is_digit(text@[0]));
    assert(t@[0] == '+');
    assert(!is_digit(t@[0]));
}

/// Nothing but a run of digits is read as a plain number; a leading zero changes
/// nothing, and one more digit counts ten times what was before it.
pub proof fn a_number_is_read_digit_by_digit(
    s: &str,
    r: Option<u64>,
    longer: &str,
    c: char,
    rr: Option<u64>,
)
    requires
        call_ensures(parse_plain_u64, (s,), r),
        call_ensures(parse_plain_u64, (longer,), rr),
        longer@ == s@.push(c),
    ensures
        r is Some ==> s@.len() > 0 && forall|i: int|
            0 <= i < s@.len() ==> '0' <= #[trigger] s@[i] <= '9',
        s@.len() == 0 ==> r is None,
        s@.len() == 0 && '0' <= c <= '9' ==> rr == Some((c as int - 48) as u64),
        r matches Some(n) ==> ('0' <= c <= '9' && 10 * n + (c as int - 48) <= u64::MAX ==> rr
            == Some((10 * n + (c as int - 48)) as u64)),
        !('0' <= c <= '9') ==> rr is None,
{
    assert(longer@.drop_last() =~= s@);
    assert(longer@[s@.len() as int] == c);
    if r is Some {
        assert forall|i: int| 0 <= i < s@.len() implies '0' <= #[trigger] s@[i] <= '9' by {
            assert(is_digit(s@[i]));
        }
        if '0' <= c <= '9' {
            assert forall|i: int| 0 <= i < longer@.len() implies is_digit(#[trigger] longer@[i]) by {
                if i < s@.len() {
                    assert(longer@[i] == s@[i]);
                    assert(is_digit(s@[i]));
                }
            }
        }
    }
    if s@.len() == 0 {
        assert(digits_value(longer@.drop_last()) == 0);
    }
    if !('0' <= c <= '9') {
        assert(!is_digit(longer@[s@.len() as int]));
    }
}

/// A text is found in another exactly when the other is something before it, the
/// text itself, and something after it; and what follows a prefix is what is left
/// once the prefix is taken off.
pub proof fn a_text_is_found_where_it_stands(
    s: &str,
    p: &str,
    found: bool,
    rest: Option<String>,
    a: Seq<char>,
    b: Seq<char>,
)
    requires
        call_ensures(contains, (s, p), found),
        call_ensures(strip_prefix, (s, p), rest),
    ensures
        s@ == a + p@ + b ==> found,
        s@ == p@ + b ==> (rest matches Some(t) && t@ == b),
        rest matches Some(t) ==> s@ == p@ + t@,
        found ==> exists|i: int|
            0 <= i && i + p@.len() <= s@.len() && #[trigger] s@.subrange(i, i + p@.len()) == p@,
{
    if s@ == a + p@ + b {
        assert(s@.subrange(a.len() as int, a.len() as int + p@.len()) =~= p@);
        assert(stands_at(s@, p@, a.len() as int));
    }
    if s@ == p@ + b {
        assert(s@.subrange(0, p@.len() as int) =~= p@);
        assert(s@.skip(p@.len() as int) =~= b);
    }
    if let Some(t) = rest {
        assert(s@ =~= p@ + t@);
    }
    if found {
        let i = choose|i: int| stands_at(s@, p@, i);
        assert(s@.subrange(i, i + p@.len()) == p@);
    }
}

/// Texts are compared, taken apart, cut and put together character by character.
pub proof fn texts_are_their_characters(
    a: &str,
    b: &str,
    same: bool,
    chars: Vec<char>,
    from: usize,
    to: usize,
    cut: String,
    both: String,
    i: int,
)
    requires
        call_ensures(str_eq, (a, b), same),
        call_ensures(chars_of, (a,), chars),
        call_ensures(string_of, (&chars, from, to), cut),
        call_ensures(join, (a, b), both),
        from <= to <= chars@.len(),
    ensures
        same <==> a@.len() == b@.len() && forall|k: int| 0 <= k < a@.len() ==> a@[k] == #[trigger] b@[k],
        chars@.len() == a@.len(),
        0 <= i < a@.len() ==> chars@[i] == a@[i],
        cut@.len() == to - from,
        0 <= i < to - from ==> cut@[i] == a@[from + i],
        both@.len() == a@.len() + b@.len(),
        0 <= i < a@.len() ==> both@[i] == a@[i],
        0 <= i < b@.len() ==> both@[a@.len() + i] == b@[i],
{
    if a@.len() == b@.len() && (forall|k: int| 0 <= k < a@.len() ==> a@[k] == #[trigger] b@[k]) {
        assert(a@ =~= b@);
    }
}

} // verus!
