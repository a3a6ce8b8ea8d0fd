//! Byte-level text helpers for fixed-column records in UTF-8 text:
//! whitespace trimming, decimal integers, and line splitting.
use vstd::prelude::*;

verus! {

/// The ASCII whitespace bytes: tab, line feed, vertical tab, form feed,
/// carriage return and space.
pub open spec fn is_ascii_space(b: u8) -> bool {
    (9 <= b <= 13) || b == 32
}

/// The three-byte UTF-8 encodings of whitespace characters: U+1680,
/// U+2000 to U+200A, U+2028, U+2029, U+202F, U+205F and U+3000.
pub open spec fn is_wide_space(a: u8, b: u8, c: u8) -> bool {
    ||| a == 0xE1 && b == 0x9A && c == 0x80
    ||| a == 0xE2 && b == 0x80 && ((0x80 <= c <= 0x8A) || c == 0xA8 || c == 0xA9 || c == 0xAF)
    ||| a == 0xE2 && b == 0x81 && c == 0x9F
    ||| a == 0xE3 && b == 0x80 && c == 0x80
}

/// The two-byte UTF-8 encodings of whitespace characters: U+0085 and U+00A0.
pub open spec fn is_narrow_space(a: u8, b: u8) -> bool {
    a == 0xC2 && (b == 0x85 || b == 0xA0)
}

/// Length of the UTF-8 encoded whitespace character (Unicode `White_Space`,
/// as `char::is_whitespace` has it) that `s` starts with, or 0.
pub open spec fn space_at_start(s: Seq<u8>) -> int {
    if s.len() >= 1 && is_ascii_space(s[0]) {
        1
    } else if s.len() >= 2 && is_narrow_space(s[0], s[1]) {
        2
    } else if s.len() >= 3 && is_wide_space(s[0], s[1], s[2]) {
        3
    } else {
        0
    }
}

/// Length of the UTF-8 encoded whitespace character that `s` ends with, or 0.
pub open spec fn space_at_end(s: Seq<u8>) -> int {
    let n = s.len() as int;
    if n >= 1 && is_ascii_space(s[n - 1]) {
        1
    } else if n >= 2 && is_narrow_space(s[n - 2], s[n - 1]) {
        2
    } else if n >= 3 && is_wide_space(s[n - 3], s[n - 2], s[n - 1]) {
        3
    } else {
        0
    }
}

/// Number of bytes of leading whitespace of `s`.
pub open spec fn leading_space(s: Seq<u8>) -> int
    decreases s.len(),
{
    let w = space_at_start(s);
    if w > 0 {
        w + leading_space(s.skip(w))
    } else {
        0
    }
}

/// Number of bytes of trailing whitespace of `s`.
pub open spec fn trailing_space(s: Seq<u8>) -> int
    decreases s.len(),
{
    let w = space_at_end(s);
    if w > 0 {
        w + trailing_space(s.take(s.len() - w))
    } else {
        0
    }
}

/// `s` without leading and trailing whitespace, as `str::trim` gives it for
/// UTF-8 text.
pub open spec fn trim(s: Seq<u8>) -> Seq<u8> {
    let t = s.skip(leading_space(s));
    t.take(t.len() - trailing_space(t))
}

/// Length of the whitespace character at the start of `s[from..to]`.
fn space_width_at(s: &[u8], from: usize, to: usize) -> (w: usize)
    requires
        from <= to <= s@.len(),
    ensures
        w == space_at_start(s@.subrange(from as int, to as int)),
{
    let ghost t = s@.subrange(from as int, to as int);
    let n = to - from;
    if n >= 1 {
        assert(t[0] == s@[from as int]);
    }
    if n >= 2 {
        assert(t[1] == s@[from + 1]);
    }
    if n >= 3 {
        assert(t[2] == s@[from + 2]);
    }
    if n >= 1 && (9 <= s[from] && s[from] <= 13 || s[from] == 32) {
        1
    } else if n >= 2 && s[from] == 0xC2 && (s[from + 1] == 0x85 || s[from + 1] == 0xA0) {
        2
    } else if n >= 3 && wide_space(s[from], s[from + 1], s[from + 2]) {
        3
    } else {
        0
    }
}

/// Length of the whitespace character at the end of `s[from..to]`.
fn space_width_before(s: &[u8], from: usize, to: usize) -> (w: usize)
    requires
        from <= to <= s@.len(),
    ensures
        w == space_at_end(s@.subrange(from as int, to as int)),
{
    let ghost t = s@.subrange(from as int, to as int);
    let n = to - from;
    if n >= 1 {
        assert(t[n - 1] == s@[to - 1]);
    }
    if n >= 2 {
        assert(t[n - 2] == s@[to - 2]);
    }
    if n >= 3 {
        assert(t[n - 3] == s@[to - 3]);
    }
    if n >= 1 && (9 <= s[to - 1] && s[to - 1] <= 13 || s[to - 1] == 32) {
        1
    } else if n >= 2 && s[to - 2] == 0xC2 && (s[to - 1] == 0x85 || s[to - 1] == 0xA0) {
        2
    } else if n >= 3 && wide_space(s[to - 3], s[to - 2], s[to - 1]) {
        3
    } else {
        0
    }
}

fn wide_space(a: u8, b: u8, c: u8) -> (r: bool)
    ensures
        r == is_wide_space(a, b, c),
{
    (a == 0xE1 && b == 0x9A && c == 0x80) || (a == 0xE2 && b == 0x80 && ((0x80 <= c && c <= 0x8A)
        || c == 0xA8 || c == 0xA9 || c == 0xAF)) || (a == 0xE2 && b == 0x81 && c == 0x9F) || (a
        == 0xE3 && b == 0x80 && c == 0x80)
}

/// Bounds `(start, end)` of `s[from..to]` without its surrounding whitespace.
pub fn trim_range(s: &[u8], from: usize, to: usize) -> (r: (usize, usize))
    requires
        from <= to <= s@.len(),
    ensures
        from <= r.0 <= r.1 <= to,
        s@.subrange(r.0 as int, r.1 as int) == trim(s@.subrange(from as int, to as int)),
{
    let ghost sub = s@.subrange(from as int, to as int);
    let mut start = from;
    let mut w = space_width_at(s, start, to);
    while w > 0
        invariant
            from <= start <= to <= s@.len(),
            sub == s@.subrange(from as int, to as int),
            w == space_at_start(s@.subrange(start as int, to as int)),
            leading_space(sub) == (start - from) + leading_space(
                s@.subrange(start as int, to as int),
            ),
        decreases to - start,
    {
        proof {
            let cur = s@.subrange(start as int, to as int);
            assert(cur.skip(w as int) =~= s@.subrange(start + w, to as int));
        }
        start = start + w;
        w = space_width_at(s, start, to);
    }
    let ghost t = s@.subrange(start as int, to as int);
    proof {
        assert(sub.skip(leading_space(sub)) =~= t);
    }
    let mut end = to;
    let mut v = space_width_before(s, start, end);
    while v > 0
        invariant
            from <= start <= end <= to <= s@.len(),
            t == s@.subrange(start as int, to as int),
            v == space_at_end(s@.subrange(start as int, end as int)),
            trailing_space(t) == (to - end) + trailing_space(s@.subrange(start as int, end as int)),
        decreases end - start,
    {
        proof {
            let cur = s@.subrange(start as int, end as int);
            assert(cur.take(cur.len() - v) =~= s@.subrange(start as int, end - v));
        }
        end = end - v;
        v = space_width_before(s, start, end);
    }
    proof {
        assert(s@.subrange(start as int, end as int) =~= t.take(t.len() - trailing_space(t)));
    }
    (start, end)
}

/// A copy of `s[from..to]`.
pub fn copy_range(s: &[u8], from: usize, to: usize) -> (r: Vec<u8>)
    requires
        from <= to <= s@.len(),
    ensures
        r@ == s@.subrange(from as int, to as int),
{
    let mut r: Vec<u8> = Vec::new();
    let mut i = from;
    while i < to
        invariant
            from <= i <= to <= s@.len(),
            r@ == s@.subrange(from as int, i as int),
        decreases to - i,
    {
        r.push(s[i]);
        i += 1;
        assert(r@ =~= s@.subrange(from as int, i as int));
    }
    r
}

/// A copy of `s[from..to]` without surrounding whitespace.
pub fn trimmed_copy(s: &[u8], from: usize, to: usize) -> (r: Vec<u8>)
    requires
        from <= to <= s@.len(),
    ensures
        r@ == trim(s@.subrange(from as int, to as int)),
{
    let (a, b) = trim_range(s, from, to);
    copy_range(s, a, b)
}

pub open spec fn is_digit(b: u8) -> bool {
    48 <= b <= 57
}

pub open spec fn all_digits(s: Seq<u8>) -> bool {
    forall|i: int| 0 <= i < s.len() ==> is_digit(#[trigger] s[i])
}

/// Value of a string of decimal digits.
pub open spec fn digits_value(s: Seq<u8>) -> int
    decreases s.len(),
{
    if s.len() == 0 {
        0
    } else {
        digits_value(s.drop_last()) * 10 + (s.last() - 48)
    }
}

/// The `i32` that a decimal numeral denotes: an optional sign, then at least
/// one digit, with a value inside the `i32` range; `None` otherwise.
pub open spec fn decimal_i32(s: Seq<u8>) -> Option<int> {
    if s.len() == 0 {
        None
    } else {
        let negative = s[0] == 45;
        let digits = if s[0] == 45 || s[0] == 43 {
            s.drop_first()
        } else {
            s
        };
        let value = if negative {
            -digits_value(digits)
        } else {
            digits_value(digits)
        };
        if digits.len() == 0 || !all_digits(digits) || !(i32::MIN <= value <= i32::MAX) {
            None
        } else {
            Some(value)
        }
    }
}

proof fn lemma_digits_value_grows(s: Seq<u8>, n: int)
    requires
        all_digits(s),
        0 <= n <= s.len(),
    ensures
        digits_value(s.take(n)) <= digits_value(s),
        0 <= digits_value(s.take(n)),
    decreases s.len(),
{
    if s.len() > 0 {
        assert(s.drop_last().take(if n < s.len() { n } else { s.len() - 1 }) =~= (if n
            < s.len() {
            s.take(n)
        } else {
            s.drop_last()
        }));
        assert(all_digits(s.drop_last())) by {
            assert forall|i: int| 0 <= i < s.drop_last().len() implies is_digit(
                #[trigger] s.drop_last()[i],
            ) by {
                assert(s.drop_last()[i] == s[i]);
            }
        }
        if n < s.len() {
            lemma_digits_value_grows(s.drop_last(), n);
        } else {
            assert(s.take(n) =~= s);
            lemma_digits_value_grows(s.drop_last(), s.len() - 1);
        }
    } else {
        assert(s.take(n) =~= s);
    }
}

pub open spec fn pow10(n: nat) -> int
    decreases n,
{
    if n == 0 {
        1
    } else {
        10 * pow10((n - 1) as nat)
    }
}

proof fn lemma_digits_value_bound(s: Seq<u8>)
    requires
        all_digits(s),
    ensures
        0 <= digits_value(s) < pow10(s.len()),
    decreases s.len(),
{
    if s.len() > 0 {
        assert(all_digits(s.drop_last())) by {
            assert forall|i: int| 0 <= i < s.drop_last().len() implies is_digit(
                #[trigger] s.drop_last()[i],
            ) by {
                assert(s.drop_last()[i] == s[i]);
            }
        }
        lemma_digits_value_bound(s.drop_last());
        let p = pow10(s.drop_last().len());
        let v = digits_value(s.drop_last());
        let d = s.last() - 48;
        assert(is_digit(s[s.len() - 1]));
        assert(0 <= v * 10 + d < 10 * p) by (nonlinear_arith)
            requires
                0 <= v < p,
                0 <= d <= 9,
        ;
    }
}

/// A numeral of at most four bytes denotes a value in `-999..=9999`.
pub proof fn lemma_short_decimal_bounds(s: Seq<u8>)
    requires
        s.len() <= 4,
        decimal_i32(s) is Some,
    ensures
        -999 <= decimal_i32(s)->0 <= 9999,
{
    let digits = if s[0] == 45 || s[0] == 43 {
        s.drop_first()
    } else {
        s
    };
    lemma_digits_value_bound(digits);
    assert(pow10(0) == 1);
    assert(pow10(1) == 10);
    assert(pow10(2) == 100);
    assert(pow10(3) == 1000);
    assert(pow10(4) == 10000);
}

/// Parses a decimal `i32`, as `str::parse::<i32>` does on ASCII input.
pub fn parse_decimal_i32(s: &[u8]) -> (r: Option<i32>)
    ensures
        match decimal_i32(s@) {
            Some(v) => r == Some(v as i32),
            None => r is None,
        },
{
    let n = s.len();
    if n == 0 {
        return None;
    }
    let negative = s[0] == 45;
    let start: usize = if s[0] == 45 || s[0] == 43 {
        1
    } else {
        0
    };
    if start == n {
        return None;
    }
    let ghost digits = s@.subrange(start as int, n as int);
    assert(digits =~= (if s@[0] == 45 || s@[0] == 43 {
        s@.drop_first()
    } else {
        s@
    }));
    let limit: u64 = if negative {
        2147483648
    } else {
        2147483647
    };
    let mut value: u64 = 0;
    let mut i = start;
    while i < n
        invariant
            start <= i <= n == s@.len(),
            digits == s@.subrange(start as int, n as int),
            all_digits(s@.subrange(start as int, i as int)),
            value == digits_value(s@.subrange(start as int, i as int)),
            value <= limit,
            limit <= 2147483648,
            n > 0,
            negative == (s@[0] == 45),
            limit == (if negative { 2147483648u64 } else { 2147483647u64 }),
            digits == (if s@[0] == 45 || s@[0] == 43 {
                s@.drop_first()
            } else {
                s@
            }),
        decreases n - i,
    {
        let b = s[i];
        if !(48 <= b && b <= 57) {
            proof {
                assert(digits[i - start] == s@[i as int]);
                assert(!is_digit(digits[i - start]));
                assert(!all_digits(digits));
            }
            return None;
        }
        let ghost prefix = s@.subrange(start as int, i as int + 1);
        assert(prefix.drop_last() =~= s@.subrange(start as int, i as int));
        let next = value * 10 + (b - 48) as u64;
        if next > limit {
            proof {
                assert(all_digits(prefix)) by {
                    assert forall|j: int| 0 <= j < prefix.len() implies is_digit(
                        #[trigger] prefix[j],
                    ) by {
                        if j < prefix.len() - 1 {
                            assert(prefix[j] == s@.subrange(start as int, i as int)[j]);
                        }
                    }
                }
                assert(digits_value(prefix) == next);
                if all_digits(digits) {
                    assert(prefix =~= digits.take(i + 1 - start));
                    lemma_digits_value_grows(digits, i + 1 - start);
                }
            }
            return None;
        }
        proof {
            assert(all_digits(prefix)) by {
                assert forall|j: int| 0 <= j < prefix.len() implies is_digit(#[trigger] prefix[j]) by {
                    if j < prefix.len() - 1 {
                        assert(prefix[j] == s@.subrange(start as int, i as int)[j]);
                    }
                }
            }
        }
        value = next;
        i += 1;
    }
    assert(s@.subrange(start as int, n as int) =~= digits);
    if negative {
        Some((0 - value as i64) as i32)
    } else {
        Some(value as i32)
    }
}

/// Index of the first line feed at or after `start`, or the length of `s`.
pub open spec fn line_end(s: Seq<u8>, start: int) -> int
    decreases s.len() - start,
{
    if start >= s.len() || start < 0 {
        s.len() as int
    } else if s[start] == 10 {
        start
    } else {
        line_end(s, start + 1)
    }
}

/// The line starting at `start`, as `str::lines` gives it: without its line
/// feed, and without a carriage return just before that line feed.
pub open spec fn line_at(s: Seq<u8>, start: int) -> Seq<u8> {
    let e = line_end(s, start);
    let raw = s.subrange(start, e);
    if e < s.len() && raw.len() > 0 && raw.last() == 13 {
        raw.drop_last()
    } else {
        raw
    }
}

pub proof fn lemma_line_end_bounds(s: Seq<u8>, start: int)
    requires
        0 <= start <= s.len(),
    ensures
        start <= line_end(s, start) <= s.len(),
        line_end(s, start) < s.len() ==> s[line_end(s, start)] == 10,
        forall|j: int| start <= j < line_end(s, start) ==> s[j] != 10,
    decreases s.len() - start,
{
    if start < s.len() && s[start] != 10 {
        lemma_line_end_bounds(s, start + 1);
    }
}

/// Finds the line starting at `start`: returns its bounds without the line
/// terminator, and where the next line starts (the end of `s` after the
/// last line).
pub fn next_line(s: &[u8], start: usize) -> (r: (usize, usize, usize))
    requires
        start < s@.len(),
    ensures
        start <= r.0 <= r.1 <= s@.len(),
        r.0 == start,
        s@.subrange(r.0 as int, r.1 as int) == line_at(s@, start as int),
        r.2 == (if line_end(s@, start as int) < s@.len() {
            line_end(s@, start as int) + 1
        } else {
            s@.len() as int
        }),
        start < r.2 <= s@.len(),
{
    let n = s.len();
    let mut e = start;
    while e < n && s[e] != 10
        invariant
            start <= e <= n == s@.len(),
            line_end(s@, start as int) == line_end(s@, e as int),
        decreases n - e,
    {
        e += 1;
    }
    let mut stop = e;
    if e < n && e > start && s[e - 1] == 13 {
        stop = e - 1;
    }
    proof {
        let raw = s@.subrange(start as int, e as int);
        if e < n && e > start && s@[e - 1] == 13 {
            assert(raw.last() == 13);
            assert(s@.subrange(start as int, stop as int) =~= raw.drop_last());
        }
    }
    let next = if e < n {
        e + 1
    } else {
        n
    };
    (start, stop, next)
}

/// Whether two strings hold the same characters.
pub fn str_equal(a: &str, b: &str) -> (r: bool)
    ensures
        r == (a@ == b@),
{
    let n = a.unicode_len();
    if n != b.unicode_len() {
        return false;
    }
    let mut i: usize = 0;
    while i < n
        invariant
            n == a@.len() == b@.len(),
            i <= n,
            forall|j: int| 0 <= j < i ==> a@[j] == b@[j],
        decreases n - i,
    {
        if a.get_char(i) != b.get_char(i) {
            return false;
        }
        i += 1;
    }
    assert(a@ =~= b@);
    true
}

} // verus!

