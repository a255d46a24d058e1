//! Parsing of the sensor endpoint's record shapes.
//!
//! The latest-reading endpoint answers one JSON object
//! `{"tds_ppm": <number>, "timestamp": <integer>}`; the history
//! endpoint answers a JSON array of such objects. The grammar accepted
//! here is exactly that: the two members in either order, decimal
//! numbers without exponents, no escapes in the two key strings, any
//! amount of JSON whitespace between tokens. The value is read as
//! fixed-point milli-ppm: fractional digits beyond the third are
//! checked for shape and dropped. At most twelve integer digits are
//! accepted for either field, so every value fits its machine integer.
//!
//! Every parser is deterministic: each executable function returns
//! exactly what its spec-level twin denotes, so failure is pinned down
//! as sharply as success.

use vstd::prelude::*;

use crate::reading::Reading;

verus! {

/// Why a fetched body yielded no reading.
#[derive(Clone, Copy, Debug, PartialEq, Eq, Structural)]
pub enum ParseError {
    /// The body does not match the record grammar.
    Malformed,
}

/// JSON whitespace: space, tab, line feed, carriage return.
pub open spec fn is_ws(b: u8) -> bool {
    b == 32 || b == 9 || b == 10 || b == 13
}

/// An ASCII decimal digit.
pub open spec fn is_digit(b: u8) -> bool {
    48 <= b <= 57
}

/// The value of one digit byte.
pub open spec fn digit_val(b: u8) -> int {
    b - 48
}

/// The first position at or after `i` that holds no whitespace.
pub open spec fn spec_skip_ws(s: Seq<u8>, i: int) -> int
    decreases s.len() - i when 0 <= i <= s.len()
{
    if i < s.len() && is_ws(s[i]) {
        spec_skip_ws(s, i + 1)
    } else {
        i
    }
}

/// The first position at or after `i` that holds no digit.
pub open spec fn spec_digits_end(s: Seq<u8>, i: int) -> int
    decreases s.len() - i when 0 <= i <= s.len()
{
    if i < s.len() && is_digit(s[i]) {
        spec_digits_end(s, i + 1)
    } else {
        i
    }
}

/// The value of the digit run `s[i..j)`.
pub open spec fn spec_digits_val(s: Seq<u8>, i: int, j: int) -> int
    decreases j - i,
{
    if i >= j {
        0
    } else {
        spec_digits_val(s, i, j - 1) * 10 + digit_val(s[j - 1])
    }
}

/// Ten to the `e`.
pub open spec fn pow10(e: int) -> int
    decreases e,
{
    if e <= 0 {
        1
    } else {
        10 * pow10(e - 1)
    }
}

/// Whether `key` occurs verbatim at position `i`.
pub open spec fn spec_match_at(s: Seq<u8>, i: int, key: Seq<u8>) -> bool {
    0 <= i && i + key.len() <= s.len() && forall|k: int|
        0 <= k < key.len() ==> s[i + k] == #[trigger] key[k]
}

/// The bytes of the value key, `tds_ppm`.
pub open spec fn key_tds() -> Seq<u8> {
    seq![116u8, 100u8, 115u8, 95u8, 112u8, 112u8, 109u8]
}

/// The bytes of the instant key, `timestamp`.
pub open spec fn key_timestamp() -> Seq<u8> {
    seq![116u8, 105u8, 109u8, 101u8, 115u8, 116u8, 97u8, 109u8, 112u8]
}

/// A signed digit run at `i`: its value and the position after it.
/// None when no digit follows the optional minus sign, or the run is
/// longer than twelve digits.
pub open spec fn spec_parse_int_at(s: Seq<u8>, i: int) -> Option<(int, int)> {
    let neg = i < s.len() && s[i] == 45;
    let j = if neg {
        i + 1
    } else {
        i
    };
    let e = spec_digits_end(s, j);
    if e == j || e - j > 12 {
        None
    } else if neg {
        Some((-spec_digits_val(s, j, e), e))
    } else {
        Some((spec_digits_val(s, j, e), e))
    }
}

/// The milli-ppm value of the first fractional digits of `s[f..g)`,
/// scaled as if exactly three digits had been given.
pub open spec fn spec_frac_mppm(s: Seq<u8>, f: int, g: int) -> int {
    let k = if g - f > 3 {
        f + 3
    } else {
        g
    };
    spec_digits_val(s, f, k) * pow10(3 - (k - f))
}

/// A decimal number at `i`, read as fixed-point milli-ppm: its value
/// and the position after it. A fractional part needs at least one
/// digit; digits beyond the third contribute nothing.
pub open spec fn spec_parse_mppm_at(s: Seq<u8>, i: int) -> Option<(int, int)> {
    let neg = i < s.len() && s[i] == 45;
    let j = if neg {
        i + 1
    } else {
        i
    };
    let e = spec_digits_end(s, j);
    if e == j || e - j > 12 {
        None
    } else {
        let whole = spec_digits_val(s, j, e) * 1000;
        if e < s.len() && s[e] == 46 {
            let g = spec_digits_end(s, e + 1);
            if g == e + 1 {
                None
            } else {
                let v = whole + spec_frac_mppm(s, e + 1, g);
                if neg {
                    Some((-v, g))
                } else {
                    Some((v, g))
                }
            }
        } else {
            if neg {
                Some((-whole, e))
            } else {
                Some((whole, e))
            }
        }
    }
}

/// One object member at `i`: whether its key is `tds_ppm` (else
/// `timestamp`), the member's value, and the position after it. The
/// value of `tds_ppm` is read as milli-ppm, that of `timestamp` as an
/// integer.
pub open spec fn spec_parse_member_at(s: Seq<u8>, i: int) -> Option<((bool, int), int)> {
    if i < s.len() && s[i] == 34 && spec_match_at(s, i + 1, key_tds()) && i + 8 < s.len() && s[i
        + 8] == 34 {
        spec_parse_member_value(s, i + 9, true)
    } else if i < s.len() && s[i] == 34 && spec_match_at(s, i + 1, key_timestamp()) && i + 10
        < s.len() && s[i + 10] == 34 {
        spec_parse_member_value(s, i + 11, false)
    } else {
        None
    }
}

/// The colon and value part of a member, after its key.
pub open spec fn spec_parse_member_value(s: Seq<u8>, i: int, is_tds: bool) -> Option<
    ((bool, int), int),
> {
    let c = spec_skip_ws(s, i);
    if c < s.len() && s[c] == 58 {
        let v = spec_skip_ws(s, c + 1);
        if is_tds {
            match spec_parse_mppm_at(s, v) {
                Some((value, p)) => Some(((true, value), p)),
                None => None,
            }
        } else {
            match spec_parse_int_at(s, v) {
                Some((value, p)) => Some(((false, value), p)),
                None => None,
            }
        }
    } else {
        None
    }
}

/// One reading object at `i`: both members in either order, each key
/// once, and the position after the closing brace.
pub open spec fn spec_parse_reading_at(s: Seq<u8>, i: int) -> Option<(Reading, int)> {
    let a = spec_skip_ws(s, i);
    if a < s.len() && s[a] == 123 {
        match spec_parse_member_at(s, spec_skip_ws(s, a + 1)) {
            Some(((k1, v1), p1)) => {
                let c = spec_skip_ws(s, p1);
                if c < s.len() && s[c] == 44 {
                    match spec_parse_member_at(s, spec_skip_ws(s, c + 1)) {
                        Some(((k2, v2), p2)) => {
                            if k1 != k2 {
                                let d = spec_skip_ws(s, p2);
                                if d < s.len() && s[d] == 125 {
                                    let value = if k1 {
                                        v1
                                    } else {
                                        v2
                                    };
                                    let ts = if k1 {
                                        v2
                                    } else {
                                        v1
                                    };
                                    Some(
                                        (
                                            Reading {
                                                value_mppm: value as i64,
                                                timestamp: ts as i64,
                                            },
                                            d + 1,
                                        ),
                                    )
                                } else {
                                    None
                                }
                            } else {
                                None
                            }
                        },
                        None => None,
                    }
                } else {
                    None
                }
            },
            None => None,
        }
    } else {
        None
    }
}

/// The whole body as one reading: the object and nothing but trailing
/// whitespace after it.
pub open spec fn spec_parse_reading(s: Seq<u8>) -> Option<Reading> {
    match spec_parse_reading_at(s, 0) {
        Some((r, p)) => if spec_skip_ws(s, p) == s.len() {
            Some(r)
        } else {
            None
        },
        None => None,
    }
}

/// A comma-separated run of reading objects starting at `i`: the
/// readings and the position after the last one.
pub open spec fn spec_parse_items_at(s: Seq<u8>, i: int) -> Option<(Seq<Reading>, int)>
    decreases s.len() - i when 0 <= i <= s.len()
{
    match spec_parse_reading_at(s, i) {
        Some((r, p)) => {
            let c = spec_skip_ws(s, p);
            if c < s.len() && s[c] == 44 {
                if i < c + 1 && c + 1 <= s.len() {
                    match spec_parse_items_at(s, c + 1) {
                        Some((rs, e)) => Some((seq![r] + rs, e)),
                        None => None,
                    }
                } else {
                    None
                }
            } else {
                Some((seq![r], p))
            }
        },
        None => None,
    }
}

/// The whole body as a history array: possibly empty, with nothing but
/// trailing whitespace after the closing bracket.
pub open spec fn spec_parse_history(s: Seq<u8>) -> Option<Seq<Reading>> {
    let a = spec_skip_ws(s, 0);
    if a < s.len() && s[a] == 91 {
        let b = spec_skip_ws(s, a + 1);
        if b < s.len() && s[b] == 93 {
            if spec_skip_ws(s, b + 1) == s.len() {
                Some(Seq::<Reading>::empty())
            } else {
                None
            }
        } else {
            match spec_parse_items_at(s, a + 1) {
                Some((rs, p)) => {
                    let d = spec_skip_ws(s, p);
                    if d < s.len() && s[d] == 93 && spec_skip_ws(s, d + 1) == s.len() {
                        Some(rs)
                    } else {
                        None
                    }
                },
                None => None,
            }
        }
    } else {
        None
    }
}

proof fn lemma_pow10_positive(e: int)
    ensures
        pow10(e) >= 1,
    decreases e,
{
    if e > 0 {
        lemma_pow10_positive(e - 1);
    }
}

proof fn lemma_pow10_mono(a: int, b: int)
    requires
        a <= b,
    ensures
        pow10(a) <= pow10(b),
    decreases b - a,
{
    if a < b {
        lemma_pow10_mono(a, b - 1);
        lemma_pow10_positive(b - 1);
    }
}

proof fn lemma_pow10_twelve()
    ensures
        pow10(12) == 1_000_000_000_000,
{
    assert(pow10(0) == 1);
    assert(pow10(1) == 10);
    assert(pow10(2) == 100);
    assert(pow10(3) == 1000);
    assert(pow10(4) == 10_000);
    assert(pow10(5) == 100_000);
    assert(pow10(6) == 1_000_000);
    assert(pow10(7) == 10_000_000);
    assert(pow10(8) == 100_000_000);
    assert(pow10(9) == 1_000_000_000);
    assert(pow10(10) == 10_000_000_000);
    assert(pow10(11) == 100_000_000_000);
    assert(pow10(12) == 1_000_000_000_000);
}

/// A digit run's value is bounded by ten to its length.
proof fn lemma_digits_val_bound(s: Seq<u8>, i: int, j: int)
    requires
        0 <= i <= j <= s.len(),
        forall|k: int| i <= k < j ==> is_digit(#[trigger] s[k]),
    ensures
        0 <= spec_digits_val(s, i, j) < pow10(j - i),
    decreases j - i,
{
    if i < j {
        lemma_digits_val_bound(s, i, j - 1);
    }
}

proof fn lemma_digits_end_bounds(s: Seq<u8>, i: int)
    requires
        0 <= i <= s.len(),
    ensures
        i <= spec_digits_end(s, i) <= s.len(),
        forall|k: int| i <= k < spec_digits_end(s, i) ==> is_digit(#[trigger] s[k]),
    decreases s.len() - i,
{
    if i < s.len() && is_digit(s[i]) {
        lemma_digits_end_bounds(s, i + 1);
    }
}

fn ws_byte(b: u8) -> (r: bool)
    ensures
        r == is_ws(b),
{
    b == 32 || b == 9 || b == 10 || b == 13
}

fn digit_byte(b: u8) -> (r: bool)
    ensures
        r == is_digit(b),
{
    48 <= b && b <= 57
}

/// The first position at or after `i` with no whitespace.
fn skip_ws(s: &Vec<u8>, i: usize) -> (j: usize)
    requires
        i <= s@.len(),
    ensures
        j as int == spec_skip_ws(s@, i as int),
        i <= j <= s@.len(),
{
    let mut j = i;
    while j < s.len() && ws_byte(s[j])
        invariant
            i <= j <= s@.len(),
            spec_skip_ws(s@, i as int) == spec_skip_ws(s@, j as int),
        decreases s@.len() - j,
    {
        j += 1;
    }
    j
}

/// The first position at or after `i` with no digit.
fn digits_end(s: &Vec<u8>, i: usize) -> (j: usize)
    requires
        i <= s@.len(),
    ensures
        j as int == spec_digits_end(s@, i as int),
        i <= j <= s@.len(),
{
    let mut j = i;
    while j < s.len() && digit_byte(s[j])
        invariant
            i <= j <= s@.len(),
            spec_digits_end(s@, i as int) == spec_digits_end(s@, j as int),
        decreases s@.len() - j,
    {
        j += 1;
    }
    j
}

/// The value of the digit run `s[j..e)`, of at most twelve digits.
fn read_digits(s: &Vec<u8>, j: usize, e: usize) -> (v: i64)
    requires
        j <= e <= s@.len(),
        e - j <= 12,
        forall|k: int| j <= k < e ==> is_digit(#[trigger] s@[k]),
    ensures
        v as int == spec_digits_val(s@, j as int, e as int),
        0 <= v < 1_000_000_000_000,
{
    let mut acc: i64 = 0;
    let mut k = j;
    while k < e
        invariant
            j <= k <= e <= s@.len(),
            e - j <= 12,
            forall|m: int| j <= m < e ==> is_digit(#[trigger] s@[m]),
            acc as int == spec_digits_val(s@, j as int, k as int),
            0 <= acc,
            (acc as int) < pow10(k as int - j as int),
        decreases e - k,
    {
        proof {
            lemma_pow10_mono(k as int - j as int + 1, 12);
            lemma_pow10_twelve();
        }
        acc = acc * 10 + ((s[k] - 48) as i64);
        k += 1;
    }
    proof {
        lemma_pow10_mono(e as int - j as int, 12);
        lemma_pow10_twelve();
    }
    acc
}

/// A signed digit run at `i`.
fn parse_int_at(s: &Vec<u8>, i: usize) -> (r: Option<(i64, usize)>)
    requires
        i <= s@.len(),
    ensures
        (r is None) == (spec_parse_int_at(s@, i as int) is None),
        r matches Some(t) ==> spec_parse_int_at(s@, i as int) == Some((t.0 as int, t.1 as int))
            && i < t.1 <= s@.len(),
{
    let neg = i < s.len() && s[i] == 45;
    let j = if neg {
        i + 1
    } else {
        i
    };
    let e = digits_end(s, j);
    if e == j || e - j > 12 {
        None
    } else {
        proof {
            lemma_digits_end_bounds(s@, j as int);
            lemma_digits_val_bound(s@, j as int, e as int);
            lemma_pow10_mono(e as int - j as int, 12);
            lemma_pow10_twelve();
        }
        let v = read_digits(s, j, e);
        if neg {
            Some((-v, e))
        } else {
            Some((v, e))
        }
    }
}

/// A decimal number at `i`, as fixed-point milli-ppm.
fn parse_mppm_at(s: &Vec<u8>, i: usize) -> (r: Option<(i64, usize)>)
    requires
        i <= s@.len(),
    ensures
        (r is None) == (spec_parse_mppm_at(s@, i as int) is None),
        r matches Some(t) ==> spec_parse_mppm_at(s@, i as int) == Some((t.0 as int, t.1 as int))
            && i < t.1 <= s@.len(),
{
    let neg = i < s.len() && s[i] == 45;
    let j = if neg {
        i + 1
    } else {
        i
    };
    let e = digits_end(s, j);
    if e == j || e - j > 12 {
        return None;
    }
    proof {
        lemma_digits_end_bounds(s@, j as int);
    }
    let whole_digits = read_digits(s, j, e);
    let whole = whole_digits * 1000;
    if e < s.len() && s[e] == 46 {
        let g = digits_end(s, e + 1);
        if g == e + 1 {
            return None;
        }
        proof {
            lemma_digits_end_bounds(s@, e as int + 1);
        }
        let k = if g - (e + 1) > 3 {
            e + 1 + 3
        } else {
            g
        };
        let frac_digits = read_digits(s, e + 1, k);
        let scale: i64 = if k - (e + 1) == 1 {
            100
        } else if k - (e + 1) == 2 {
            10
        } else {
            1
        };
        proof {
            lemma_digits_val_bound(s@, e as int + 1, k as int);
            assert(pow10(0) == 1);
            assert(pow10(1) == 10);
            assert(pow10(2) == 100);
            assert(pow10(3) == 1000);
            assert(scale as int == pow10(3 - (k as int - (e as int + 1))));
        }
        let frac = frac_digits * scale;
        let v = whole + frac;
        if neg {
            Some((-v, g))
        } else {
            Some((v, g))
        }
    } else {
        if neg {
            Some((-whole, e))
        } else {
            Some((whole, e))
        }
    }
}

/// Whether `key` occurs verbatim at position `i`.
fn bytes_match_at(s: &Vec<u8>, i: usize, key: &Vec<u8>) -> (r: bool)
    requires
        i <= s@.len(),
    ensures
        r == spec_match_at(s@, i as int, key@),
{
    if s.len() - i < key.len() {
        return false;
    }
    let mut k: usize = 0;
    while k < key.len()
        invariant
            0 <= k <= key@.len(),
            i + key@.len() <= s@.len(),
            s@.len() <= usize::MAX,
            forall|m: int| 0 <= m < k ==> s@[i + m] == #[trigger] key@[m],
        decreases key@.len() - k,
    {
        if s[i + k] != key[k] {
            return false;
        }
        k += 1;
    }
    true
}

/// One object member at `i`: the key it carries and its value, as
/// milli-ppm for `tds_ppm` and as an integer for `timestamp`.
fn parse_member_at(s: &Vec<u8>, i: usize) -> (r: Option<((bool, i64), usize)>)
    requires
        i <= s@.len(),
    ensures
        (r is None) == (spec_parse_member_at(s@, i as int) is None),
        r matches Some(t) ==> spec_parse_member_at(s@, i as int) == Some(
            (((t.0).0, (t.0).1 as int), t.1 as int),
        ) && i < t.1 <= s@.len(),
{
    let tds_key: Vec<u8> = vec![116u8, 100u8, 115u8, 95u8, 112u8, 112u8, 109u8];
    let ts_key: Vec<u8> = vec![116u8, 105u8, 109u8, 101u8, 115u8, 116u8, 97u8, 109u8, 112u8];
    proof {
        assert(tds_key@ =~= key_tds());
        assert(ts_key@ =~= key_timestamp());
    }
    let is_tds = i < s.len() && s[i] == 34 && bytes_match_at(s, i + 1, &tds_key) && i + 8 < s.len()
        && s[i + 8] == 34;
    if is_tds {
        parse_member_value(s, i + 9, true)
    } else if i < s.len() && s[i] == 34 && bytes_match_at(s, i + 1, &ts_key) && i + 10 < s.len()
        && s[i + 10] == 34 {
        parse_member_value(s, i + 11, false)
    } else {
        None
    }
}

/// The colon and value part of a member, after its key.
fn parse_member_value(s: &Vec<u8>, i: usize, is_tds: bool) -> (r: Option<((bool, i64), usize)>)
    requires
        i <= s@.len(),
    ensures
        (r is None) == (spec_parse_member_value(s@, i as int, is_tds) is None),
        r matches Some(t) ==> spec_parse_member_value(s@, i as int, is_tds) == Some(
            (((t.0).0, (t.0).1 as int), t.1 as int),
        ) && i <= t.1 <= s@.len(),
{
    let c = skip_ws(s, i);
    if c < s.len() && s[c] == 58 {
        let v = skip_ws(s, c + 1);
        if is_tds {
            match parse_mppm_at(s, v) {
                Some((value, p)) => Some(((true, value), p)),
                None => None,
            }
        } else {
            match parse_int_at(s, v) {
                Some((value, p)) => Some(((false, value), p)),
                None => None,
            }
        }
    } else {
        None
    }
}

/// One reading object at `i`.
fn parse_reading_at(s: &Vec<u8>, i: usize) -> (r: Option<(Reading, usize)>)
    requires
        i <= s@.len(),
    ensures
        (r is None) == (spec_parse_reading_at(s@, i as int) is None),
        r matches Some(t) ==> spec_parse_reading_at(s@, i as int) == Some((t.0, t.1 as int)) && i
            < t.1 <= s@.len(),
{
    let a = skip_ws(s, i);
    if !(a < s.len() && s[a] == 123) {
        return None;
    }
    let m1 = skip_ws(s, a + 1);
    let first = parse_member_at(s, m1);
    match first {
        None => None,
        Some(((k1, v1), p1)) => {
            let c = skip_ws(s, p1);
            if !(c < s.len() && s[c] == 44) {
                return None;
            }
            let m2 = skip_ws(s, c + 1);
            let second = parse_member_at(s, m2);
            match second {
                None => None,
                Some(((k2, v2), p2)) => {
                    if k1 == k2 {
                        return None;
                    }
                    let d = skip_ws(s, p2);
                    if !(d < s.len() && s[d] == 125) {
                        return None;
                    }
                    let value = if k1 {
                        v1
                    } else {
                        v2
                    };
                    let ts = if k1 {
                        v2
                    } else {
                        v1
                    };
                    Some((Reading { value_mppm: value, timestamp: ts }, d + 1))
                },
            }
        },
    }
}

/// A comma-separated run of reading objects starting at `i`.
fn parse_items_at(s: &Vec<u8>, i: usize) -> (r: Option<(Vec<Reading>, usize)>)
    requires
        i <= s@.len(),
    ensures
        (r is None) == (spec_parse_items_at(s@, i as int) is None),
        r matches Some(t) ==> spec_parse_items_at(s@, i as int) == Some((t.0@, t.1 as int)) && i
            < t.1 <= s@.len(),
    decreases s@.len() - i,
{
    match parse_reading_at(s, i) {
        None => None,
        Some((r0, p)) => {
            let c = skip_ws(s, p);
            if c < s.len() && s[c] == 44 {
                match parse_items_at(s, c + 1) {
                    None => None,
                    Some((rest, e)) => {
                        let mut out = rest;
                        out.insert(0, r0);
                        proof {
                            assert(out@ =~= seq![r0] + out@.drop_first());
                        }
                        Some((out, e))
                    },
                }
            } else {
                let out: Vec<Reading> = vec![r0];
                proof {
                    assert(out@ =~= seq![r0]);
                }
                Some((out, p))
            }
        },
    }
}

/// Parse the latest-reading body: one reading object and nothing but
/// trailing whitespace. `Err` exactly when the body does not match the
/// record grammar.
pub fn parse_reading(s: &Vec<u8>) -> (r: Result<Reading, ParseError>)
    ensures
        (r is Err) == (spec_parse_reading(s@) is None),
        r matches Ok(rd) ==> spec_parse_reading(s@) == Some(rd),
        r matches Err(e) ==> e == ParseError::Malformed,
{
    match parse_reading_at(s, 0) {
        None => Err(ParseError::Malformed),
        Some((rd, p)) => {
            let t = skip_ws(s, p);
            if t == s.len() {
                Ok(rd)
            } else {
                Err(ParseError::Malformed)
            }
        },
    }
}

/// Parse the history body: a possibly empty array of reading objects
/// and nothing but trailing whitespace. `Err` exactly when the body
/// does not match the record grammar.
pub fn parse_history(s: &Vec<u8>) -> (r: Result<Vec<Reading>, ParseError>)
    ensures
        (r is Err) == (spec_parse_history(s@) is None),
        r matches Ok(rs) ==> spec_parse_history(s@) == Some(rs@),
        r matches Err(e) ==> e == ParseError::Malformed,
{
    let a = skip_ws(s, 0);
    if !(a < s.len() && s[a] == 91) {
        return Err(ParseError::Malformed);
    }
    let b = skip_ws(s, a + 1);
    if b < s.len() && s[b] == 93 {
        let t = skip_ws(s, b + 1);
        if t == s.len() {
            let out: Vec<Reading> = Vec::new();
            proof {
                assert(out@ =~= Seq::<Reading>::empty());
            }
            return Ok(out);
        } else {
            return Err(ParseError::Malformed);
        }
    }
    match parse_items_at(s, a + 1) {
        None => Err(ParseError::Malformed),
        Some((rs, p)) => {
            let d = skip_ws(s, p);
            if d < s.len() && s[d] == 93 {
                let t = skip_ws(s, d + 1);
                if t == s.len() {
                    Ok(rs)
                } else {
                    Err(ParseError::Malformed)
                }
            } else {
                Err(ParseError::Malformed)
            }
        },
    }
}

} // verus!
