use vstd::prelude::*;

verus! {

/// ASCII lowering of one character; every other character is kept.
pub open spec fn lower_char(c: char) -> char {
    if 'A' <= c && c <= 'Z' {
        ((c as u8) + 32) as char
    } else {
        c
    }
}

/// ASCII lowering of a whole string. All keywords this crate matches are
/// ASCII, and no non-ASCII character lowers to one of their letters, so this
/// agrees with full Unicode lowering wherever a keyword comparison is made.
pub open spec fn lower_seq(s: Seq<char>) -> Seq<char> {
    Seq::new(s.len(), |i: int| lower_char(s[i]))
}

pub open spec fn is_digit(c: char) -> bool {
    '0' <= c && c <= '9'
}

pub open spec fn digit_value(c: char) -> int {
    (c as u32) as int - ('0' as u32) as int
}

/// The value of a string of decimal digits, read from the left.
pub open spec fn digits_value(s: Seq<char>) -> int
    decreases s.len(),
{
    if s.len() == 0 {
        0
    } else {
        digits_value(s.drop_last()) * 10 + digit_value(s.last())
    }
}

pub open spec fn all_digits(s: Seq<char>) -> bool {
    forall|i: int| 0 <= i < s.len() ==> is_digit(#[trigger] s[i])
}

/// The digits of an unsigned decimal, after an optional leading `+`.
pub open spec fn unsigned_digits(s: Seq<char>) -> Seq<char> {
    if s.len() > 0 && s[0] == '+' {
        s.subrange(1, s.len() as int)
    } else {
        s
    }
}

/// An unsigned 64-bit decimal: an optional `+`, then one or more digits whose
/// value fits in 64 bits.
pub open spec fn parse_u64_spec(s: Seq<char>) -> Option<u64> {
    let d = unsigned_digits(s);
    if d.len() > 0 && all_digits(d) && digits_value(d) <= u64::MAX {
        Some(digits_value(d) as u64)
    } else {
        None
    }
}

/// A signed 64-bit decimal: an optional sign, then one or more digits whose
/// value fits in 64 bits with that sign.
pub open spec fn parse_i64_spec(s: Seq<char>) -> Option<i64> {
    if s.len() > 0 && s[0] == '-' {
        let t = s.subrange(1, s.len() as int);
        if t.len() > 0 && t[0] == '+' {
            None
        } else {
            match parse_u64_spec(t) {
                Some(n) => if n <= 0x8000_0000_0000_0000 {
                    Some((-(n as int)) as i64)
                } else {
                    None
                },
                None => None,
            }
        }
    } else {
        match parse_u64_spec(s) {
            Some(n) => if n <= i64::MAX {
                Some(n as i64)
            } else {
                None
            },
            None => None,
        }
    }
}

proof fn lemma_digits_value_nonneg(s: Seq<char>)
    requires
        all_digits(s),
    ensures
        digits_value(s) >= 0,
    decreases s.len(),
{
    if s.len() > 0 {
        lemma_digits_value_nonneg(s.drop_last());
    }
}

/// The value of a digit string is at least that of any of its prefixes.
proof fn lemma_digits_value_prefix(s: Seq<char>, n: int)
    requires
        all_digits(s),
        0 <= n <= s.len(),
    ensures
        digits_value(s.subrange(0, n)) <= digits_value(s),
    decreases s.len(),
{
    if n < s.len() {
        assert(all_digits(s.drop_last()));
        lemma_digits_value_prefix(s.drop_last(), n);
        assert(s.drop_last().subrange(0, n) =~= s.subrange(0, n));
        lemma_digits_value_nonneg(s.drop_last());
    } else {
        assert(s.subrange(0, n) =~= s);
    }
}

/// The characters of a string.
pub fn chars_of(s: &str) -> (r: Vec<char>)
    ensures
        r@ == s@,
{
    let n = s.unicode_len();
    let mut r: Vec<char> = Vec::new();
    let mut i: usize = 0;
    while i < n
        invariant
            n == s@.len(),
            i <= n,
            r@ == s@.subrange(0, i as int),
        decreases n - i,
    {
        r.push(s.get_char(i));
        i += 1;
    }
    assert(r@ =~= s@);
    r
}

pub fn lower_ascii(c: char) -> (r: char)
    ensures
        r == lower_char(c),
{
    if 'A' <= c && c <= 'Z' {
        ((c as u8) + 32) as char
    } else {
        c
    }
}

/// Whether `v[start..end]`, lowered, is exactly `kw`.
pub fn lowered_range_is(v: &Vec<char>, start: usize, end: usize, kw: &str) -> (r: bool)
    requires
        start <= end <= v@.len(),
    ensures
        r == (lower_seq(v@.subrange(start as int, end as int)) == kw@),
{
    let ghost t = v@.subrange(start as int, end as int);
    let n = kw.unicode_len();
    if end - start != n {
        proof {
            assert(lower_seq(t).len() != kw@.len());
        }
        return false;
    }
    let mut i: usize = 0;
    while i < n
        invariant
            n == kw@.len(),
            n == end - start,
            start <= end <= v@.len(),
            t == v@.subrange(start as int, end as int),
            i <= n,
            forall|j: int| 0 <= j < i ==> lower_seq(t)[j] == kw@[j],
        decreases n - i,
    {
        if lower_ascii(v[start + i]) != kw.get_char(i) {
            assert(lower_seq(t)[i as int] != kw@[i as int]);
            return false;
        }
        i += 1;
    }
    assert(lower_seq(t) =~= kw@);
    true
}

/// Reads an unsigned 64-bit decimal, as `str::parse::<u64>` does.
pub fn parse_u64(s: &str) -> (r: Option<u64>)
    ensures
        r == parse_u64_spec(s@),
{
    let v = chars_of(s);
    assert(v@.subrange(0, v@.len() as int) =~= s@);
    parse_u64_at(&v, 0)
}

/// Reads a signed 64-bit decimal, as `str::parse::<i64>` does.
pub fn parse_i64(s: &str) -> (r: Option<i64>)
    ensures
        r == parse_i64_spec(s@),
{
    let v = chars_of(s);
    let len = v.len();
    if len > 0 && v[0] == '-' {
        if len > 1 && v[1] == '+' {
            return None;
        }
        match parse_u64_at(&v, 1) {
            Some(n) => if n == 0x8000_0000_0000_0000 {
                Some(i64::MIN)
            } else if n < 0x8000_0000_0000_0000 {
                Some(-(n as i64))
            } else {
                None
            },
            None => None,
        }
    } else {
        assert(v@.subrange(0, len as int) =~= s@);
        match parse_u64_at(&v, 0) {
            Some(n) => if n <= 0x7fff_ffff_ffff_ffff {
                Some(n as i64)
            } else {
                None
            },
            None => None,
        }
    }
}

/// Reads `v[from..]` as an unsigned 64-bit decimal.
pub fn parse_u64_at(v: &Vec<char>, from: usize) -> (r: Option<u64>)
    requires
        from <= v@.len(),
    ensures
        r == parse_u64_spec(v@.subrange(from as int, v@.len() as int)),
{
    let ghost t = v@.subrange(from as int, v@.len() as int);
    let len = v.len();
    let mut i: usize = from;
    if from < len && v[from] == '+' {
        i = from + 1;
    }
    let start = i;
    let ghost d = unsigned_digits(t);
    assert(d =~= v@.subrange(start as int, len as int));
    if start == len {
        return None;
    }
    let mut acc: u64 = 0;
    while i < len
        invariant
            len == v@.len(),
            start <= i <= len,
            start < len,
            d == v@.subrange(start as int, len as int),
            d == unsigned_digits(t),
            t == v@.subrange(from as int, v@.len() as int),
            all_digits(d.subrange(0, i - start)),
            acc == digits_value(d.subrange(0, i - start)),
        decreases len - i,
    {
        let c = v[i];
        let ghost k = i - start;
        if !('0' <= c && c <= '9') {
            assert(d[k] == c);
            assert(!is_digit(d[k]));
            assert(!all_digits(d));
            return None;
        }
        let dv = (c as u32 - '0' as u32) as u64;
        proof {
            assert(d.subrange(0, k + 1).drop_last() =~= d.subrange(0, k));
            assert(d.subrange(0, k + 1).last() == c);
            assert(all_digits(d.subrange(0, k + 1)));
            assert(digits_value(d.subrange(0, k + 1)) == acc * 10 + dv);
        }
        let m = acc.checked_mul(10);
        if m.is_none() {
            proof {
                assert(acc * 10 + dv > u64::MAX) by (nonlinear_arith)
                    requires
                        acc * 10 > u64::MAX,
                        dv >= 0,
                ;
                digits_gt_max(d, k + 1);
            }
            return None;
        }
        let a = m.unwrap().checked_add(dv);
        if a.is_none() {
            proof {
                digits_gt_max(d, k + 1);
            }
            return None;
        }
        acc = a.unwrap();
        i += 1;
    }
    assert(d.subrange(0, len - start) =~= d);
    Some(acc)
}

/// Once a prefix of a string overflows 64 bits, either the string holds a
/// non-digit or its whole value overflows too.
proof fn digits_gt_max(d: Seq<char>, n: int)
    requires
        0 < n <= d.len(),
        all_digits(d.subrange(0, n)),
        digits_value(d.subrange(0, n)) > u64::MAX,
    ensures
        !(all_digits(d) && digits_value(d) <= u64::MAX),
{
    if all_digits(d) {
        lemma_digits_value_prefix(d, n);
    }
}

} // verus!
