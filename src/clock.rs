//! Parsing of clock annotations (`[%clk H:MM:SS]`) and time controls (`base+increment`).
//!
//! Both parsers work on the UTF-8 bytes of their input: every delimiter they look for is
//! ASCII, so a byte search finds exactly what a character search would.
use vstd::prelude::*;
use vstd::string::StringSliceAdditionalSpecFns;

verus! {

/// Opening of a clock annotation: the bytes of `"[%clk "`.
pub open spec fn clk_tag() -> Seq<u8> {
    seq![91u8, 37u8, 99u8, 108u8, 107u8, 32u8]
}

/// Index of the first `b` in `s` at or after `i`, or -1 where there is none.
pub open spec fn find_byte_from(s: Seq<u8>, b: u8, i: int) -> int
    decreases s.len() - i,
{
    if i < 0 || i >= s.len() {
        -1
    } else if s[i] == b {
        i
    } else {
        find_byte_from(s, b, i + 1)
    }
}

/// Index of the first occurrence of the clock tag in `s` at or after `i`, or -1.
pub open spec fn find_tag_from(s: Seq<u8>, i: int) -> int
    decreases s.len() - i,
{
    if i < 0 || i + clk_tag().len() > s.len() {
        -1
    } else if s.subrange(i, i + clk_tag().len()) == clk_tag() {
        i
    } else {
        find_tag_from(s, i + 1)
    }
}

pub open spec fn is_digit(b: u8) -> bool {
    48 <= b <= 57
}

pub open spec fn all_digits(s: Seq<u8>) -> bool {
    forall|i: int| 0 <= i < s.len() ==> is_digit(#[trigger] s[i])
}

/// The number written by the decimal digits `s`.
pub open spec fn digits_value(s: Seq<u8>) -> nat
    decreases s.len(),
{
    if s.len() == 0 {
        0
    } else {
        digits_value(s.drop_last()) * 10 + (s.last() - 48) as nat
    }
}

/// What `u64`'s `from_str` gives: an optional `+`, then one or more decimal digits
/// whose value fits in a `u64`.
pub open spec fn parse_u64_spec(s: Seq<u8>) -> Option<u64> {
    let d = if s.len() > 0 && s[0] == 43u8 { s.drop_first() } else { s };
    if d.len() > 0 && all_digits(d) && digits_value(d) <= u64::MAX {
        Some(digits_value(d) as u64)
    } else {
        None
    }
}

/// The three fields `H`, `MM`, `SS` of the first clock annotation in `s`, as byte
/// ranges: after the tag, up to the first `:`, then up to the next `:`, then up to
/// the first `]`.
pub open spec fn clock_fields(s: Seq<u8>) -> Option<(Seq<u8>, Seq<u8>, Seq<u8>)> {
    let t = find_tag_from(s, 0);
    let a = t + clk_tag().len();
    let c1 = find_byte_from(s, 58u8, a);
    let c2 = find_byte_from(s, 58u8, c1 + 1);
    let e = find_byte_from(s, 93u8, c2 + 1);
    if t < 0 || c1 < 0 || c2 < 0 || e < 0 {
        None
    } else {
        Some((s.subrange(a, c1), s.subrange(c1 + 1, c2), s.subrange(c2 + 1, e)))
    }
}

/// The clock reading, in seconds, of the first annotation in `s`: `H * 3600 + M * 60 + S`.
/// Absent where the annotation is missing, a field does not parse, or the total
/// does not fit in a `u64`.
pub open spec fn clock_seconds(s: Seq<u8>) -> Option<u64> {
    match clock_fields(s) {
        None => None,
        Some((hs, ms, ss)) => match (parse_u64_spec(hs), parse_u64_spec(ms), parse_u64_spec(ss)) {
            (Some(h), Some(m), Some(x)) => if h * 3600 + m * 60 + x <= u64::MAX {
                Some((h * 3600 + m * 60 + x) as u64)
            } else {
                None
            },
            _ => None,
        },
    }
}

/// A time control: base time and increment per move, in seconds.
/// The all-zero value stands for "none".
#[derive(Clone, Copy, Debug, PartialEq, Eq, Structural)]
pub struct Tc {
    pub base: u64,
    pub increment: u64,
}

/// The time control written `base+increment`: split at the first `+`, both sides
/// parsed as `u64`.
pub open spec fn time_control_of(s: Seq<u8>) -> Option<Tc> {
    let p = find_byte_from(s, 43u8, 0);
    if p < 0 {
        None
    } else {
        match (parse_u64_spec(s.subrange(0, p)), parse_u64_spec(s.subrange(p + 1, s.len() as int))) {
            (Some(b), Some(i)) => Some(Tc { base: b, increment: i }),
            _ => None,
        }
    }
}

/// Representative length of a game in seconds: the base time plus forty increments.
pub open spec fn average_time_spec(tc: Tc) -> nat {
    (tc.base + 40 * tc.increment) as nat
}

impl Tc {
    pub open spec fn none_spec() -> Tc {
        Tc { base: 0, increment: 0 }
    }

    pub fn new(tc: (u64, u64)) -> (r: Tc)
        ensures
            r.base == tc.0,
            r.increment == tc.1,
    {
        Tc { base: tc.0, increment: tc.1 }
    }

    /// The time control that stands for "none".
    pub fn none() -> (r: Tc)
        ensures
            r == Tc::none_spec(),
    {
        Tc { base: 0, increment: 0 }
    }

    pub fn is_none(&self) -> (r: bool)
        ensures
            r == (self.base == 0 && self.increment == 0),
    {
        self.base == 0 && self.increment == 0
    }

    pub fn average_time(&self) -> (r: u64)
        requires
            average_time_spec(*self) <= u64::MAX,
        ensures
            r == average_time_spec(*self),
    {
        self.base + 40 * self.increment
    }
}

/// Index of the first `b` in `s[from..]`, or `s.len()` where there is none.
fn find_byte(s: &[u8], b: u8, from: usize) -> (r: usize)
    requires
        from <= s@.len(),
    ensures
        find_byte_from(s@, b, from as int) == if r == s@.len() { -1 } else { r as int },
        from <= r <= s@.len(),
{
    let mut i: usize = from;
    while i < s.len()
        invariant
            from <= i <= s@.len(),
            find_byte_from(s@, b, from as int) == find_byte_from(s@, b, i as int),
        decreases s@.len() - i,
    {
        if s[i] == b {
            return i;
        }
        i = i + 1;
    }
    i
}

proof fn lemma_digits_prefix(s: Seq<u8>, i: int)
    requires
        0 <= i <= s.len(),
        all_digits(s),
    ensures
        digits_value(s.subrange(0, i)) <= digits_value(s),
    decreases s.len() - i,
{
    if i < s.len() {
        lemma_digits_prefix(s, i + 1);
        assert(s.subrange(0, i + 1).drop_last() == s.subrange(0, i));
        assert(is_digit(s.subrange(0, i + 1).last()));
    } else {
        assert(s.subrange(0, i) == s);
    }
}

/// Parses `s[lo..hi]` as `u64`'s `from_str` would.
pub fn parse_u64(s: &[u8], lo: usize, hi: usize) -> (r: Option<u64>)
    requires
        lo <= hi <= s@.len(),
    ensures
        r == parse_u64_spec(s@.subrange(lo as int, hi as int)),
{
    let ghost all = s@.subrange(lo as int, hi as int);
    let mut start = lo;
    if lo < hi && s[lo] == 43u8 {
        start = lo + 1;
    }
    let ghost d = s@.subrange(start as int, hi as int);
    assert(d == if all.len() > 0 && all[0] == 43u8 { all.drop_first() } else { all });
    if start == hi {
        return None;
    }
    let mut acc: u64 = 0;
    let mut i: usize = start;
    while i < hi
        invariant
            start <= i <= hi <= s@.len(),
            d == s@.subrange(start as int, hi as int),
            all == s@.subrange(lo as int, hi as int),
            d == if all.len() > 0 && all[0] == 43u8 { all.drop_first() } else { all },
            all_digits(s@.subrange(start as int, i as int)),
            acc as nat == digits_value(s@.subrange(start as int, i as int)),
        decreases hi - i,
    {
        let c = s[i];
        assert(s@.subrange(start as int, i + 1).drop_last() == s@.subrange(start as int, i as int));
        assert(d[i - start] == c);
        if c < 48u8 || c > 57u8 {
            assert(!is_digit(d[i - start]));
            assert(!all_digits(d));
            assert(parse_u64_spec(all) is None);
            return None;
        }
        let v: u64 = (c - 48u8) as u64;
        if acc > (u64::MAX - v) / 10 {
            proof {
                assert(acc * 10 + v > u64::MAX) by (nonlinear_arith)
                    requires acc > (u64::MAX - v) / 10, v <= 9;
                assert(d.subrange(0, i + 1 - start) == s@.subrange(start as int, i + 1));
                assert(digits_value(s@.subrange(start as int, i + 1)) == acc * 10 + v);
                if all_digits(d) {
                    lemma_digits_prefix(d, i + 1 - start);
                    assert(digits_value(d) > u64::MAX);
                }
                assert(parse_u64_spec(all) is None);
            }
            return None;
        }
        proof {
            assert(acc * 10 + v <= u64::MAX) by (nonlinear_arith)
                requires acc <= (u64::MAX - v) / 10, v <= 9;
        }
        acc = acc * 10 + v;
        i = i + 1;
        assert(all_digits(s@.subrange(start as int, i as int)));
    }
    assert(s@.subrange(start as int, i as int) == d);
    Some(acc)
}

/// Whether the clock tag starts at `s[i]`.
fn tag_at(s: &[u8], i: usize) -> (r: bool)
    requires
        i + clk_tag().len() <= s@.len(),
    ensures
        r == (s@.subrange(i as int, i + clk_tag().len()) == clk_tag()),
{
    let r = s[i] == 91u8 && s[i + 1] == 37u8 && s[i + 2] == 99u8 && s[i + 3] == 108u8
        && s[i + 4] == 107u8 && s[i + 5] == 32u8;
    let ghost w = s@.subrange(i as int, i + 6);
    if !r {
        proof {
            if w == clk_tag() {
                assert(w[0] == 91u8 && w[1] == 37u8 && w[2] == 99u8 && w[3] == 108u8 && w[4]
                    == 107u8 && w[5] == 32u8);
            }
        }
    } else {
        assert(w == clk_tag());
    }
    r
}

/// Index of the first clock tag in `s`, or `s.len()` where there is none.
fn find_tag(s: &[u8]) -> (r: usize)
    ensures
        find_tag_from(s@, 0) == if r == s@.len() { -1 } else { r as int },
        r <= s@.len(),
        r < s@.len() ==> r + clk_tag().len() <= s@.len(),
{
    let mut i: usize = 0;
    while i < s.len() && s.len() - i >= 6
        invariant
            i <= s@.len(),
            find_tag_from(s@, 0) == find_tag_from(s@, i as int),
        decreases s@.len() - i,
    {
        if tag_at(s, i) {
            return i;
        }
        i = i + 1;
    }
    s.len()
}

/// Reads the clock annotation `[%clk H:MM:SS]` in a move comment, as seconds.
pub fn comment_to_duration(comment: &str) -> (r: Option<u64>)
    ensures
        r == clock_seconds(comment.spec_bytes()),
{
    let s = comment.as_bytes();
    let t = find_tag(s);
    assert(clk_tag().len() == 6);
    if t == s.len() {
        return None;
    }
    let a = t + 6;
    let c1 = find_byte(s, 58u8, a);
    if c1 == s.len() {
        return None;
    }
    let c2 = find_byte(s, 58u8, c1 + 1);
    if c2 == s.len() {
        return None;
    }
    let e = find_byte(s, 93u8, c2 + 1);
    if e == s.len() {
        return None;
    }
    let h = parse_u64(s, a, c1);
    let m = parse_u64(s, c1 + 1, c2);
    let x = parse_u64(s, c2 + 1, e);
    match (h, m, x) {
        (Some(h), Some(m), Some(x)) => {
            let total: u128 = h as u128 * 3600 + m as u128 * 60 + x as u128;
            if total <= u64::MAX as u128 {
                Some(total as u64)
            } else {
                None
            }
        },
        _ => None,
    }
}

/// Reads a time control written `base+increment`, both in seconds.
pub fn tc_to_tuple(tc: &str) -> (r: Option<Tc>)
    ensures
        r == time_control_of(tc.spec_bytes()),
{
    let s = tc.as_bytes();
    let p = find_byte(s, 43u8, 0);
    if p == s.len() {
        return None;
    }
    match (parse_u64(s, 0, p), parse_u64(s, p + 1, s.len())) {
        (Some(b), Some(i)) => Some(Tc::new((b, i))),
        _ => None,
    }
}

/// A clock reading is found only where the text holds the clock tag followed by three fields
/// that parse as integers, and it is then `H * 3600 + M * 60 + S`; text without the tag gives
/// no reading.
pub proof fn law_reading_needs_annotation(s: Seq<u8>)
    ensures
        find_tag_from(s, 0) < 0 ==> clock_seconds(s) is None,
        clock_seconds(s) is Some ==> exists|hs: Seq<u8>, ms: Seq<u8>, ss: Seq<u8>|
            {
                &&& #[trigger] clock_fields(s) == Some((hs, ms, ss))
                &&& parse_u64_spec(hs) is Some
                &&& parse_u64_spec(ms) is Some
                &&& parse_u64_spec(ss) is Some
                &&& clock_seconds(s)->0 == parse_u64_spec(hs)->0 * 3600 + parse_u64_spec(ms)->0
                    * 60 + parse_u64_spec(ss)->0
            },
{
    if clock_seconds(s) is Some {
        let fields = clock_fields(s)->0;
        assert(clock_fields(s) == Some((fields.0, fields.1, fields.2)));
    }
}

} // verus!
