use vstd::prelude::*;
use crate::geometry::MESH_LIMIT;

verus! {

pub open spec fn is_digit(b: u8) -> bool {
    48 <= b <= 57
}

pub open spec fn all_digits(s: Seq<u8>) -> bool {
    forall|i: int| 0 <= i < s.len() ==> is_digit(#[trigger] s[i])
}

/// The number that a run of decimal digits spells.
pub open spec fn digits_value(s: Seq<u8>) -> int
    decreases s.len(),
{
    if s.len() == 0 {
        0
    } else {
        digits_value(s.drop_last()) * 10 + (s.last() - 48)
    }
}

/// The first three digits of a fraction as thousandths; later digits are cut off.
pub open spec fn thousandths(f: Seq<u8>) -> int {
    (if f.len() > 0 { f[0] - 48 } else { 0 }) * 100 + (if f.len() > 1 { f[1] - 48 } else { 0 }) * 10
        + (if f.len() > 2 { f[2] - 48 } else { 0 })
}

/// Where the digits of `s` start: after a leading `+`, if there is one.
pub open spec fn digits_start(s: Seq<u8>) -> int {
    if s.len() > 0 && s[0] == 43 {
        1
    } else {
        0
    }
}

/// Whether `s` is a decimal number `[+]digits[.digits]` whose integer part
/// ends at `p`; the integer part may be empty where the fraction is not
/// (`.5`), and the fraction may be empty where the integer part is not (`5.`).
pub open spec fn is_decimal(s: Seq<u8>, p: int) -> bool {
    let a = digits_start(s);
    &&& a <= p <= s.len()
    &&& all_digits(s.subrange(a, p))
    &&& if p == s.len() {
        p > a
    } else {
        s[p] == 46 && all_digits(s.subrange(p + 1, s.len() as int)) && (p > a || p + 1 < s.len())
    }
}

/// The length that the decimal `s`, read in micrometres, spells in
/// nanometres: digits past the third decimal place are cut off.
pub open spec fn decimal_nm(s: Seq<u8>, p: int) -> int {
    digits_value(s.subrange(digits_start(s), p)) * 1000 + if p < s.len() {
        thousandths(s.subrange(p + 1, s.len() as int))
    } else {
        0
    }
}

/// Whether `s` is a decimal number of micrometres that spells a length of at
/// least one nanometre and at most `MESH_LIMIT`.
pub open spec fn is_size_text(s: Seq<u8>) -> bool {
    exists|p: int| is_decimal(s, p) && 1 <= #[trigger] decimal_nm(s, p) <= MESH_LIMIT
}

proof fn lemma_digits_grow(s: Seq<u8>, i: int, j: int)
    requires
        0 <= i <= j <= s.len(),
        all_digits(s.subrange(0, j)),
    ensures
        digits_value(s.subrange(0, i)) <= digits_value(s.subrange(0, j)),
        0 <= digits_value(s.subrange(0, j)),
    decreases j,
{
    if j > 0 {
        let k = if i < j { i } else { j - 1 };
        assert forall|m: int| 0 <= m < j - 1 implies is_digit(#[trigger] s.subrange(0, j - 1)[m]) by {
            assert(s.subrange(0, j - 1)[m] == s.subrange(0, j)[m]);
        }
        lemma_digits_grow(s, k, j - 1);
        assert(s.subrange(0, j).drop_last() == s.subrange(0, j - 1));
        assert(is_digit(s.subrange(0, j)[j - 1]));
    }
}

/// A length in micrometres, written as a decimal (`20`, `+20`, `33.3333`, `.5`), in
/// nanometres: `None` unless the text is such a decimal and the length is
/// at least one nanometre and at most `MESH_LIMIT`.
pub fn parse_micrometres(s: &[u8]) -> (r: Option<i64>)
    ensures
        r is Some == is_size_text(s@),
        r matches Some(v) ==> exists|p: int|
            is_decimal(s@, p) && v == decimal_nm(s@, p),
        r matches Some(v) ==> 1 <= v <= MESH_LIMIT,
        r is None ==> forall|p: int|
            is_decimal(s@, p) ==> !(1 <= #[trigger] decimal_nm(s@, p) <= MESH_LIMIT),
{
    let n = s.len();
    let a: usize = if n > 0 && s[0] == 43 { 1 } else { 0 };
    let ghost t = s@.subrange(a as int, n as int);
    let mut i: usize = a;
    let mut acc: i64 = 0;
    while i < n && 48 <= s[i] && s[i] <= 57
        invariant
            a == digits_start(s@),
            t == s@.subrange(a as int, n as int),
            a <= i <= n == s@.len(),
            all_digits(s@.subrange(a as int, i as int)),
            acc == digits_value(s@.subrange(a as int, i as int)),
            0 <= acc <= MESH_LIMIT / 1000,
        decreases n - i,
    {
        assert(s@.subrange(a as int, i as int + 1).drop_last() == s@.subrange(a as int, i as int));
        let next = acc * 10 + (s[i] - 48) as i64;
        if next > MESH_LIMIT / 1000 {
            proof {
                assert forall|p: int| is_decimal(s@, p) implies !(1 <= #[trigger] decimal_nm(s@, p)
                    <= MESH_LIMIT) by {
                    if p <= i {
                        if p < i {
                            assert(s@.subrange(a as int, i as int)[p - a] == s@[p]);
                        }
                        assert(is_digit(s@[p]));
                        assert(false);
                    }
                    assert(t.subrange(0, p - a) == s@.subrange(a as int, p));
                    assert(t.subrange(0, i + 1 - a) == s@.subrange(a as int, i + 1));
                    lemma_digits_grow(t, i + 1 - a, p - a);
                    if p < s@.len() {
                        assert(all_digits(s@.subrange(p + 1, s@.len() as int)));
                    }
                }
            }
            return None;
        }
        acc = next;
        i += 1;
    }
    let p = i;
    proof {
        assert forall|q: int| is_decimal(s@, q) implies q == p by {
            if q < p {
                assert(s@.subrange(a as int, p as int)[q - a] == s@[q]);
            } else if q > p {
                assert(s@.subrange(a as int, q)[p - a] == s@[p as int]);
            }
        }
    }
    if p == n && p == a {
        return None;
    }
    let mut frac: i64 = 0;
    if p < n {
        if p == a && n - p == 1 {
            return None;
        }
        if s[p] != 46 {
            return None;
        }
        let mut j: usize = p + 1;
        while j < n
            invariant
                p < j <= n == s@.len(),
                forall|k: int| p < k < j ==> is_digit(#[trigger] s@[k]),
                forall|q: int| is_decimal(s@, q) ==> q == p,
            decreases n - j,
        {
            if s[j] < 48 || s[j] > 57 {
                proof {
                    assert(s@.subrange(p + 1, n as int)[j - p - 1] == s@[j as int]);
                    assert(!all_digits(s@.subrange(p + 1, n as int)));
                }
                return None;
            }
            j += 1;
        }
        let ghost f = s@.subrange(p + 1, n as int);
        assert(all_digits(f));
        let d0: i64 = if n - p > 1 { (s[p + 1] - 48) as i64 } else { 0 };
        let d1: i64 = if n - p > 2 { (s[p + 2] - 48) as i64 } else { 0 };
        let d2: i64 = if n - p > 3 { (s[p + 3] - 48) as i64 } else { 0 };
        frac = d0 * 100 + d1 * 10 + d2;
        assert(frac == thousandths(f));
    }
    let v = acc * 1000 + frac;
    assert(v == decimal_nm(s@, p as int));
    if v < 1 || v > MESH_LIMIT {
        return None;
    }
    Some(v)
}

} // verus!
