//! Verified text primitives shared by every decoder: decimal-integer
//! parsing, string comparison, and character search.

use vstd::prelude::*;

verus! {

/// A decimal digit.
pub open spec fn is_digit(c: char) -> bool {
    '0' <= c && c <= '9'
}

/// Numeric value of one decimal digit.
pub open spec fn digit_val(c: char) -> int {
    c as int - '0' as int
}

/// Every character of `s` is a decimal digit.
pub open spec fn all_digits(s: Seq<char>) -> bool {
    forall|i: int| 0 <= i < s.len() ==> is_digit(#[trigger] s[i])
}

/// Value of a decimal digit string, most significant digit first.
pub open spec fn dec_val(s: Seq<char>) -> int
    decreases s.len(),
{
    if s.len() == 0 {
        0
    } else {
        dec_val(s.drop_last()) * 10 + digit_val(s.last())
    }
}

pub proof fn lemma_dec_val_nonneg(s: Seq<char>)
    requires
        all_digits(s),
    ensures
        dec_val(s) >= 0,
    decreases s.len(),
{
    if s.len() > 0 {
        assert(all_digits(s.drop_last()));
        lemma_dec_val_nonneg(s.drop_last());
    }
}

/// Extending a digit string by one digit multiplies its value by ten and
/// adds the new digit.
pub proof fn lemma_dec_val_step(s: Seq<char>, i: int)
    requires
        0 <= i < s.len(),
    ensures
        dec_val(s.subrange(0, i + 1)) == dec_val(s.subrange(0, i)) * 10 + digit_val(s[i]),
{
    let t = s.subrange(0, i + 1);
    assert(t.drop_last() =~= s.subrange(0, i));
    assert(t.last() == s[i]);
}

/// Powers of ten.
pub open spec fn pow10(n: nat) -> int
    decreases n,
{
    if n == 0 {
        1
    } else {
        10 * pow10((n - 1) as nat)
    }
}

/// A digit string's value is below ten to the power of its length.
pub proof fn lemma_dec_val_upper(s: Seq<char>)
    requires
        all_digits(s),
    ensures
        0 <= dec_val(s) < pow10(s.len()),
    decreases s.len(),
{
    if s.len() > 0 {
        assert(all_digits(s.drop_last()));
        lemma_dec_val_upper(s.drop_last());
        assert(dec_val(s.drop_last()) * 10 + digit_val(s.last()) < pow10(s.len()))
            by (nonlinear_arith)
            requires
                0 <= dec_val(s.drop_last()) < pow10((s.len() - 1) as nat),
                0 <= digit_val(s.last()) <= 9,
                pow10(s.len()) == 10 * pow10((s.len() - 1) as nat);
    }
}

/// The value of a digit string is at least the value of any of its prefixes.
pub proof fn lemma_dec_val_prefix(s: Seq<char>, i: int)
    requires
        all_digits(s),
        0 <= i <= s.len(),
    ensures
        dec_val(s) >= dec_val(s.subrange(0, i)),
    decreases s.len() - i,
{
    if i == s.len() {
        assert(s.subrange(0, i) =~= s);
    } else {
        lemma_dec_val_step(s, i);
        let p = s.subrange(0, i);
        assert(all_digits(p));
        lemma_dec_val_nonneg(p);
        assert(dec_val(s.subrange(0, i + 1)) >= dec_val(p)) by {
            assert(dec_val(p) * 10 >= dec_val(p)) by (nonlinear_arith)
                requires dec_val(p) >= 0;
            assert(digit_val(s[i]) >= 0);
        }
        lemma_dec_val_prefix(s, i + 1);
    }
}

/// Parses an unsigned decimal integer; `Some` exactly on nonempty
/// all-digit strings whose value fits in a `u64`.
pub fn parse_u64(s: &str) -> (r: Option<u64>)
    ensures
        match r {
            Some(v) => s@.len() > 0 && all_digits(s@) && v as int == dec_val(s@),
            None => s@.len() == 0 || !all_digits(s@) || dec_val(s@) > u64::MAX,
        },
{
    let len = s.unicode_len();
    if len == 0 {
        return None;
    }
    let mut acc: u64 = 0;
    let mut i: usize = 0;
    while i < len
        invariant
            0 <= i <= len,
            len == s@.len(),
            all_digits(s@.subrange(0, i as int)),
            acc as int == dec_val(s@.subrange(0, i as int)),
        decreases len - i,
    {
        let c = s.get_char(i);
        if c < '0' || c > '9' {
            assert(!is_digit(s@[i as int]));
            return None;
        }
        let d: u64 = (c as u32 - '0' as u32) as u64;
        assert(d as int == digit_val(s@[i as int]));
        if acc > (u64::MAX - d) / 10 {
            proof {
                let p = s@.subrange(0, i as int);
                lemma_dec_val_step(s@, i as int);
                assert(dec_val(s@.subrange(0, i as int + 1)) > u64::MAX) by (nonlinear_arith)
                    requires
                        dec_val(s@.subrange(0, i as int + 1)) == dec_val(p) * 10 + digit_val(s@[i as int]),
                        dec_val(p) == acc as int,
                        acc > (u64::MAX - d) / 10,
                        d as int == digit_val(s@[i as int]),
                        0 <= d <= 9;
                if all_digits(s@) {
                    lemma_dec_val_prefix(s@, i as int + 1);
                }
            }
            return None;
        }
        proof {
            lemma_dec_val_step(s@, i as int);
            assert(acc * 10 + d <= u64::MAX) by (nonlinear_arith)
                requires
                    acc <= (u64::MAX - d) / 10,
                    0 <= d <= 9;
            assert(s@.subrange(0, i as int).push(s@[i as int]) =~= s@.subrange(0, i as int + 1));
        }
        acc = acc * 10 + d;
        i = i + 1;
    }
    proof {
        assert(s@.subrange(0, len as int) =~= s@);
    }
    Some(acc)
}

/// Parses an unsigned decimal integer into a `u32`.
pub fn parse_u32(s: &str) -> (r: Option<u32>)
    ensures
        match r {
            Some(v) => s@.len() > 0 && all_digits(s@) && v as int == dec_val(s@),
            None => s@.len() == 0 || !all_digits(s@) || dec_val(s@) > u32::MAX,
        },
{
    match parse_u64(s) {
        Some(v) if v <= u32::MAX as u64 => Some(v as u32),
        _ => None,
    }
}

/// Parses an unsigned decimal integer into a `u8`.
pub fn parse_u8(s: &str) -> (r: Option<u8>)
    ensures
        match r {
            Some(v) => s@.len() > 0 && all_digits(s@) && v as int == dec_val(s@),
            None => s@.len() == 0 || !all_digits(s@) || dec_val(s@) > u8::MAX,
        },
{
    match parse_u64(s) {
        Some(v) if v <= u8::MAX as u64 => Some(v as u8),
        _ => None,
    }
}

/// Nonempty digit text whose value fits in a `u32`.
pub open spec fn is_u32_text(s: Seq<char>) -> bool {
    s.len() > 0 && all_digits(s) && dec_val(s) <= u32::MAX
}

/// Nonempty digit text whose value fits in a `u8`.
pub open spec fn is_u8_text(s: Seq<char>) -> bool {
    s.len() > 0 && all_digits(s) && dec_val(s) <= u8::MAX
}

/// Character-wise all-digits test.
pub fn check_all_digits(s: &str) -> (r: bool)
    ensures
        r == all_digits(s@),
{
    let len = s.unicode_len();
    let mut i: usize = 0;
    while i < len
        invariant
            0 <= i <= len,
            len == s@.len(),
            forall|j: int| 0 <= j < i ==> is_digit(#[trigger] s@[j]),
        decreases len - i,
    {
        let c = s.get_char(i);
        if c < '0' || c > '9' {
            assert(!is_digit(s@[i as int]));
            return false;
        }
        i = i + 1;
    }
    true
}

/// Nonempty digit text whose value fits a signed 64-bit count (of
/// seconds, mostly).
pub open spec fn is_sec_text(s: Seq<char>) -> bool {
    s.len() > 0 && all_digits(s) && dec_val(s) <= i64::MAX
}

/// Parses an unsigned decimal count into an `i64`.
pub fn parse_sec(s: &str) -> (r: Option<i64>)
    ensures
        match r {
            Some(v) => is_sec_text(s@) && v as int == dec_val(s@),
            None => !is_sec_text(s@),
        },
{
    match parse_u64(s) {
        Some(v) if v <= i64::MAX as u64 => Some(v as i64),
        _ => None,
    }
}

/// A signed decimal integer: an optional leading minus sign before a
/// nonempty digit string.
pub open spec fn is_int_text(s: Seq<char>) -> bool {
    if s.len() > 0 && s[0] == '-' {
        s.len() > 1 && all_digits(s.subrange(1, s.len() as int))
    } else {
        s.len() > 0 && all_digits(s)
    }
}

/// Value of a signed decimal integer string.
pub open spec fn int_val(s: Seq<char>) -> int {
    if s.len() > 0 && s[0] == '-' {
        -dec_val(s.subrange(1, s.len() as int))
    } else {
        dec_val(s)
    }
}

/// Parses a signed decimal integer; `Some` exactly on well-formed signed
/// integer text whose magnitude is at most `i64::MAX`.
pub fn parse_i64(s: &str) -> (r: Option<i64>)
    ensures
        match r {
            Some(v) => is_int_text(s@) && v as int == int_val(s@) && -i64::MAX <= v,
            None => !is_int_text(s@) || int_val(s@) > i64::MAX || int_val(s@) < -i64::MAX,
        },
{
    let len = s.unicode_len();
    if len > 0 && s.get_char(0) == '-' {
        let digits = s.substring_char(1, len);
        match parse_u64(digits) {
            Some(v) if v <= i64::MAX as u64 => Some(-(v as i64)),
            _ => None,
        }
    } else {
        match parse_u64(s) {
            Some(v) if v <= i64::MAX as u64 => Some(v as i64),
            _ => None,
        }
    }
}

/// Parses a signed decimal integer into an `i8`.
pub fn parse_i8(s: &str) -> (r: Option<i8>)
    ensures
        match r {
            Some(v) => is_int_text(s@) && v as int == int_val(s@),
            None => !is_int_text(s@) || int_val(s@) > i8::MAX || int_val(s@) < i8::MIN,
        },
{
    match parse_i64(s) {
        Some(v) if i8::MIN as i64 <= v && v <= i8::MAX as i64 => Some(v as i8),
        _ => None,
    }
}

/// Character-wise string equality.
pub fn str_eq(a: &str, b: &str) -> (r: bool)
    ensures
        r == (a@ == b@),
{
    let alen = a.unicode_len();
    let blen = b.unicode_len();
    if alen != blen {
        return false;
    }
    let mut i: usize = 0;
    while i < alen
        invariant
            0 <= i <= alen,
            alen == a@.len(),
            alen == b@.len(),
            forall|j: int| 0 <= j < i ==> a@[j] == b@[j],
        decreases alen - i,
    {
        if a.get_char(i) != b.get_char(i) {
            return false;
        }
        i = i + 1;
    }
    proof {
        assert(a@ =~= b@);
    }
    true
}

/// `s` begins with the prefix `p`.
pub open spec fn has_prefix(s: Seq<char>, p: Seq<char>) -> bool {
    s.len() >= p.len() && s.subrange(0, p.len() as int) == p
}

/// Character-wise prefix test.
pub fn starts_with(s: &str, p: &str) -> (r: bool)
    ensures
        r == has_prefix(s@, p@),
{
    let slen = s.unicode_len();
    let plen = p.unicode_len();
    if slen < plen {
        return false;
    }
    let mut i: usize = 0;
    while i < plen
        invariant
            0 <= i <= plen,
            plen == p@.len(),
            slen == s@.len(),
            plen <= slen,
            forall|j: int| 0 <= j < i ==> s@[j] == p@[j],
        decreases plen - i,
    {
        if s.get_char(i) != p.get_char(i) {
            proof {
                assert(s@.subrange(0, plen as int)[i as int] != p@[i as int]);
            }
            return false;
        }
        i = i + 1;
    }
    proof {
        assert(s@.subrange(0, plen as int) =~= p@);
    }
    true
}

/// The character of one decimal digit value.
pub open spec fn digit_char(d: int) -> char {
    if d == 0 {
        '0'
    } else if d == 1 {
        '1'
    } else if d == 2 {
        '2'
    } else if d == 3 {
        '3'
    } else if d == 4 {
        '4'
    } else if d == 5 {
        '5'
    } else if d == 6 {
        '6'
    } else if d == 7 {
        '7'
    } else if d == 8 {
        '8'
    } else {
        '9'
    }
}

/// Decimal text of a nonnegative integer, most significant digit first,
/// without leading zeros (a single `0` for zero).
pub open spec fn u64_digits(n: int) -> Seq<char>
    decreases n,
{
    if n < 10 {
        seq![digit_char(n)]
    } else {
        u64_digits(n / 10).push(digit_char(n % 10))
    }
}

/// Decimal text of a signed integer: a minus sign before the magnitude
/// for negative values.
pub open spec fn i64_digits(n: int) -> Seq<char> {
    if n >= 0 {
        u64_digits(n)
    } else {
        seq!['-'] + u64_digits(-n)
    }
}

fn digit_str(d: u64) -> (r: &'static str)
    requires
        d < 10,
    ensures
        r@ == seq![digit_char(d as int)],
{
    proof {
        reveal_strlit("0");
        reveal_strlit("1");
        reveal_strlit("2");
        reveal_strlit("3");
        reveal_strlit("4");
        reveal_strlit("5");
        reveal_strlit("6");
        reveal_strlit("7");
        reveal_strlit("8");
        reveal_strlit("9");
    }
    let r = match d {
        0 => "0",
        1 => "1",
        2 => "2",
        3 => "3",
        4 => "4",
        5 => "5",
        6 => "6",
        7 => "7",
        8 => "8",
        _ => "9",
    };
    proof {
        assert(r@ =~= seq![digit_char(d as int)]);
    }
    r
}

/// Renders a nonnegative integer as decimal text.
pub fn u64_text(n: u64) -> (r: String)
    ensures
        r@ == u64_digits(n as int),
    decreases n,
{
    if n < 10 {
        digit_str(n).to_owned()
    } else {
        let mut s = u64_text(n / 10);
        s.append(digit_str(n % 10));
        s
    }
}

/// Renders a signed integer as decimal text.
pub fn i64_text(n: i64) -> (r: String)
    ensures
        r@ == i64_digits(n as int),
{
    if n >= 0 {
        u64_text(n as u64)
    } else {
        let mag: u64 = ((-(n + 1)) as u64) + 1;
        assert(mag as int == -(n as int));
        let mut s = "-".to_owned();
        s.append(u64_text(mag).as_str());
        proof {
            reveal_strlit("-");
            assert(s@ =~= i64_digits(n as int));
        }
        s
    }
}

/// Index of the first occurrence of `c` in `s` at or after `from`.
pub open spec fn spec_find(s: Seq<char>, c: char, from: int) -> Option<int>
    decreases s.len() - from,
{
    if from < 0 || from >= s.len() {
        None
    } else if s[from] == c {
        Some(from)
    } else {
        spec_find(s, c, from + 1)
    }
}

pub proof fn lemma_spec_find(s: Seq<char>, c: char, from: int)
    requires
        0 <= from <= s.len(),
    ensures
        match spec_find(s, c, from) {
            Some(i) => from <= i < s.len() && s[i] == c && forall|j: int|
                from <= j < i ==> s[j] != c,
            None => forall|j: int| from <= j < s.len() ==> s[j] != c,
        },
    decreases s.len() - from,
{
    if from < s.len() && s[from] != c {
        lemma_spec_find(s, c, from + 1);
    }
}

/// First occurrence of `c` in `s` at or after `from`.
pub fn find_from(s: &str, c: char, from: usize) -> (r: Option<usize>)
    requires
        from <= s@.len(),
    ensures
        match r {
            Some(i) => spec_find(s@, c, from as int) == Some(i as int),
            None => spec_find(s@, c, from as int) is None,
        },
{
    let len = s.unicode_len();
    let mut i: usize = from;
    while i < len
        invariant
            from <= i <= len,
            len == s@.len(),
            spec_find(s@, c, from as int) == spec_find(s@, c, i as int),
        decreases len - i,
    {
        if s.get_char(i) == c {
            return Some(i);
        }
        i = i + 1;
    }
    None
}

} // verus!
