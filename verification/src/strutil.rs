//! Verified string helpers: equality, suffix handling, decimal parsing and
//! decimal formatting over `Seq<char>` views.

use vstd::prelude::*;
use vstd::string::*;

verus! {

/// ASCII lower-casing of a single character; everything outside `A..=Z`
/// is left unchanged.
pub open spec fn lower_char(c: char) -> char {
    if 'A' <= c && c <= 'Z' {
        (((c as u8) + 32) as char)
    } else {
        c
    }
}

/// ASCII lower-casing of a character sequence.
pub open spec fn lower_chars(s: Seq<char>) -> Seq<char> {
    s.map_values(|c: char| lower_char(c))
}

/// Exec counterpart of `lower_char`.
pub fn to_lower_char(c: char) -> (r: char)
    ensures
        r == lower_char(c),
{
    if 'A' <= c && c <= 'Z' {
        let x: u8 = c as u8;
        ((x + 32) as char)
    } else {
        c
    }
}

/// Character-wise string equality, proved against the views.
pub fn str_eq(a: &str, b: &str) -> (r: bool)
    ensures
        r == (a@ == b@),
{
    let alen: usize = a.unicode_len();
    let blen: usize = b.unicode_len();
    if alen != blen {
        return false;
    }
    for i in 0..alen
        invariant
            alen == a@.len() && alen == b@.len(),
            forall|j: int| 0 <= j < i ==> a@[j] == b@[j],
    {
        if a.get_char(i) != b.get_char(i) {
            return false;
        }
    }
    proof {
        assert(a@ =~= b@);
    }
    true
}

/// Whether `s` ends with `suffix`, after ASCII-lower-casing `s` only.
pub open spec fn ends_with_lower(s: Seq<char>, suffix: Seq<char>) -> bool {
    suffix.len() <= s.len() && lower_chars(s).skip(s.len() - suffix.len()) == suffix
}

/// Checks whether the ASCII-lower-cased `s` ends with `suffix`
/// (the suffix itself is taken literally).
pub fn ends_with_lower_exec(s: &str, suffix: &str) -> (r: bool)
    ensures
        r == ends_with_lower(s@, suffix@),
{
    let slen: usize = s.unicode_len();
    let plen: usize = suffix.unicode_len();
    if plen > slen {
        assert(!ends_with_lower(s@, suffix@));
        return false;
    }
    let start: usize = slen - plen;
    for i in 0..plen
        invariant
            slen == s@.len() && plen == suffix@.len(),
            start == slen - plen,
            forall|j: int| 0 <= j < i ==> lower_char(s@[start + j]) == suffix@[j],
    {
        let c: char = s.get_char(start + i);
        if to_lower_char(c) != suffix.get_char(i) {
            assert(lower_chars(s@).skip(s@.len() - suffix@.len())[i as int] != suffix@[i as int]);
            return false;
        }
    }
    proof {
        assert(lower_chars(s@).skip(s@.len() - suffix@.len()) =~= suffix@);
    }
    true
}

/// `s` with every (case-sensitive) trailing copy of `pat` removed.
pub open spec fn trim_end_matches_seq(s: Seq<char>, pat: Seq<char>) -> Seq<char>
    recommends
        pat.len() >= 1,
    decreases s.len(),
{
    if pat.len() >= 1 && pat.len() <= s.len() && s.skip(s.len() - pat.len()) == pat {
        trim_end_matches_seq(s.take(s.len() - pat.len()), pat)
    } else {
        s
    }
}

/// Whether `s` ends with `pat`, taken literally.
pub fn ends_with_exec(s: &str, pat: &str) -> (r: bool)
    ensures
        r == (pat@.len() <= s@.len() && s@.skip(s@.len() - pat@.len()) == pat@),
{
    let slen: usize = s.unicode_len();
    let plen: usize = pat.unicode_len();
    if plen > slen {
        return false;
    }
    let start: usize = slen - plen;
    for i in 0..plen
        invariant
            slen == s@.len() && plen == pat@.len(),
            start == slen - plen,
            forall|j: int| 0 <= j < i ==> s@[start + j] == pat@[j],
    {
        if s.get_char(start + i) != pat.get_char(i) {
            assert(s@.skip(s@.len() - pat@.len())[i as int] != pat@[i as int]);
            return false;
        }
    }
    proof {
        assert(s@.skip(s@.len() - pat@.len()) =~= pat@);
    }
    true
}

/// Removes every trailing copy of `pat` from `s`, as
/// `str::trim_end_matches` does.
pub fn trim_end_matches_exec(s: &str, pat: &str) -> (r: String)
    requires
        pat@.len() >= 1,
    ensures
        r@ == trim_end_matches_seq(s@, pat@),
    decreases s@.len(),
{
    let slen: usize = s.unicode_len();
    let plen: usize = pat.unicode_len();
    if ends_with_exec(s, pat) {
        let head: &str = s.substring_char(0, slen - plen);
        proof {
            assert(head@ =~= s@.take(s@.len() - pat@.len()));
        }
        trim_end_matches_exec(head, pat)
    } else {
        String::from_str(s)
    }
}

/// Whether `c` is a decimal digit.
pub open spec fn is_digit(c: char) -> bool {
    '0' <= c && c <= '9'
}

/// Numeric value of a decimal digit.
pub open spec fn digit_val(c: char) -> nat
    recommends
        is_digit(c),
{
    (c as u8 - '0' as u8) as nat
}

/// Whether every character of `s` is a decimal digit.
pub open spec fn all_digits(s: Seq<char>) -> bool {
    forall|i: int| 0 <= i < s.len() ==> is_digit(#[trigger] s[i])
}

/// The value of a digit sequence read in base ten.
pub open spec fn dec_val(s: Seq<char>) -> nat
    decreases s.len(),
{
    if s.len() == 0 {
        0
    } else {
        dec_val(s.take(s.len() - 1)) * 10 + digit_val(s[s.len() - 1])
    }
}

/// Extending a digit string on the right never decreases its value.
pub proof fn lemma_dec_val_take_le(s: Seq<char>, j: int)
    requires
        0 <= j <= s.len(),
    ensures
        dec_val(s.take(j)) <= dec_val(s),
    decreases s.len() - j,
{
    if j < s.len() {
        assert(s.take(j + 1).take(j) =~= s.take(j));
        assert(dec_val(s.take(j + 1)) == dec_val(s.take(j)) * 10 + digit_val(s.take(j + 1)[j]));
        lemma_dec_val_take_le(s, j + 1);
    } else {
        assert(s.take(j) =~= s);
    }
}

/// Reads the digit run `s[from..to]` in base ten.
///
/// Returns `None` exactly when the range is empty, holds a non-digit, or
/// its value does not fit in `u64`.
pub fn parse_digit_run(s: &str, from: usize, to: usize) -> (r: Option<u64>)
    requires
        from <= to <= s@.len(),
    ensures
        ({
            let sub = s@.subrange(from as int, to as int);
            match r {
                Some(v) => from < to && all_digits(sub) && v == dec_val(sub),
                None => !(from < to && all_digits(sub) && dec_val(sub) <= u64::MAX),
            }
        }),
{
    let ghost sub = s@.subrange(from as int, to as int);
    if from == to {
        return None;
    }
    let mut acc: u64 = 0;
    let mut i: usize = from;
    while i < to
        invariant
            from <= i <= to <= s@.len(),
            sub == s@.subrange(from as int, to as int),
            all_digits(sub.take(i - from)),
            acc == dec_val(sub.take(i - from)),
        decreases to - i,
    {
        let c: char = s.get_char(i);
        proof {
            assert(sub[i - from] == s@[i as int]);
        }
        if !('0' <= c && c <= '9') {
            assert(!all_digits(sub));
            return None;
        }
        let d: u8 = (c as u8) - ('0' as u8);
        proof {
            assert(sub.take(i - from + 1).take(i - from) =~= sub.take(i - from));
            assert(dec_val(sub.take(i - from + 1)) == acc * 10 + d);
        }
        if acc > (u64::MAX - (d as u64)) / 10 {
            proof {
                lemma_dec_val_take_le(sub, i - from + 1);
            }
            return None;
        }
        acc = acc * 10 + (d as u64);
        i = i + 1;
    }
    proof {
        assert(sub.take(to - from) =~= sub);
    }
    Some(acc)
}

/// The value of the optionally signed digit string `s`, if it has that form.
pub open spec fn signed_int_val(s: Seq<char>) -> Option<int> {
    if s.len() == 0 {
        None
    } else {
        let body = if s[0] == '-' || s[0] == '+' {
            s.skip(1)
        } else {
            s
        };
        if body.len() >= 1 && all_digits(body) {
            if s[0] == '-' {
                Some(-(dec_val(body) as int))
            } else {
                Some(dec_val(body) as int)
            }
        } else {
            None
        }
    }
}

/// Parses an optionally signed decimal integer.
///
/// Returns `None` exactly when `s` is not an optionally signed digit
/// string or its magnitude exceeds `i64::MAX`.
pub fn parse_i64(s: &str) -> (r: Option<i64>)
    ensures
        match r {
            Some(v) => signed_int_val(s@) == Some(v as int),
            None => !(signed_int_val(s@) matches Some(v) && -(i64::MAX as int) <= v
                <= i64::MAX as int),
        },
{
    let len: usize = s.unicode_len();
    if len == 0 {
        return None;
    }
    let first: char = s.get_char(0);
    let from: usize = if first == '-' || first == '+' {
        1
    } else {
        0
    };
    proof {
        if from == 1 {
            assert(s@.subrange(1, s@.len() as int) =~= s@.skip(1));
        } else {
            assert(s@.subrange(0, s@.len() as int) =~= s@);
        }
    }
    match parse_digit_run(s, from, len) {
        Some(mag) => {
            if mag > i64::MAX as u64 {
                None
            } else if first == '-' {
                Some(-(mag as i64))
            } else {
                Some(mag as i64)
            }
        },
        None => None,
    }
}

/// Splits `s` at its first dot, if any.
pub open spec fn split_at_dot(s: Seq<char>) -> Option<(Seq<char>, Seq<char>)>
    decreases s.len(),
{
    if s.len() == 0 {
        None
    } else if s[0] == '.' {
        Some((Seq::empty(), s.skip(1)))
    } else {
        match split_at_dot(s.skip(1)) {
            Some(p) => Some((seq![s[0]] + p.0, p.1)),
            None => None,
        }
    }
}

/// The integer value and fractional digit string of an unsigned decimal
/// numeral: digit strings around at most one dot, with at least one digit
/// in all.
pub open spec fn decimal_parts(s: Seq<char>) -> Option<(nat, Seq<char>)> {
    match split_at_dot(s) {
        None => if s.len() >= 1 && all_digits(s) {
            Some((dec_val(s), Seq::<char>::empty()))
        } else {
            None
        },
        Some(p) => if p.0.len() + p.1.len() >= 1 && all_digits(p.0) && all_digits(p.1) {
            Some((dec_val(p.0), p.1))
        } else {
            None
        },
    }
}

proof fn lemma_split_at_dot_found(s: Seq<char>, p: int)
    requires
        0 <= p < s.len(),
        s[p] == '.',
        forall|j: int| 0 <= j < p ==> s[j] != '.',
    ensures
        split_at_dot(s) == Some((s.take(p), s.skip(p + 1))),
    decreases p,
{
    if p == 0 {
        assert(s.take(0) =~= Seq::<char>::empty());
    } else {
        lemma_split_at_dot_found(s.skip(1), p - 1);
        assert(seq![s[0]] + s.skip(1).take(p - 1) =~= s.take(p));
        assert(s.skip(1).skip(p) =~= s.skip(p + 1));
    }
}

proof fn lemma_split_at_dot_none(s: Seq<char>)
    requires
        forall|j: int| 0 <= j < s.len() ==> s[j] != '.',
    ensures
        split_at_dot(s) is None,
    decreases s.len(),
{
    if s.len() > 0 {
        lemma_split_at_dot_none(s.skip(1));
    }
}

/// Finds the first dot of `s`, if any.
fn find_first_dot(s: &str) -> (r: Option<usize>)
    ensures
        match r {
            Some(p) => p < s@.len() && s@[p as int] == '.' && (forall|j: int|
                0 <= j < p ==> s@[j] != '.'),
            None => forall|j: int| 0 <= j < s@.len() ==> s@[j] != '.',
        },
{
    let len: usize = s.unicode_len();
    for i in 0..len
        invariant
            len == s@.len(),
            forall|j: int| 0 <= j < i ==> s@[j] != '.',
    {
        if s.get_char(i) == '.' {
            return Some(i);
        }
    }
    None
}

/// Checks that every character of `s[from..to]` is a decimal digit.
fn all_digits_range(s: &str, from: usize, to: usize) -> (r: bool)
    requires
        from <= to <= s@.len(),
    ensures
        r == all_digits(s@.subrange(from as int, to as int)),
{
    let ghost sub = s@.subrange(from as int, to as int);
    let mut i: usize = from;
    while i < to
        invariant
            from <= i <= to <= s@.len(),
            sub == s@.subrange(from as int, to as int),
            all_digits(sub.take(i - from)),
        decreases to - i,
    {
        let c: char = s.get_char(i);
        proof {
            assert(sub[i - from] == s@[i as int]);
        }
        if !('0' <= c && c <= '9') {
            assert(!all_digits(sub));
            return false;
        }
        proof {
            assert(forall|j: int| 0 <= j < i + 1 - from ==> is_digit(#[trigger] sub.take(
                i + 1 - from,
            )[j]));
        }
        i = i + 1;
    }
    proof {
        assert(sub.take(to - from) =~= sub);
    }
    true
}

/// Parses an unsigned decimal numeral into its integer value and its
/// fractional digit string.
///
/// Returns `None` exactly when `s` is not an unsigned decimal numeral or
/// its integer part exceeds `u64::MAX`.
pub fn parse_decimal_str(s: &str) -> (r: Option<(u64, String)>)
    ensures
        match r {
            Some(v) => decimal_parts(s@) == Some((v.0 as nat, v.1@)),
            None => !(decimal_parts(s@) matches Some(p) && p.0 <= u64::MAX as nat),
        },
{
    let len: usize = s.unicode_len();
    match find_first_dot(s) {
        None => {
            proof {
                lemma_split_at_dot_none(s@);
                assert(s@.subrange(0, s@.len() as int) =~= s@);
            }
            match parse_digit_run(s, 0, len) {
                Some(v) => Some((v, String::new())),
                None => None,
            }
        },
        Some(p) => {
            proof {
                lemma_split_at_dot_found(s@, p as int);
                assert(s@.subrange(0, p as int) =~= s@.take(p as int));
                assert(s@.subrange(p + 1, s@.len() as int) =~= s@.skip(p + 1));
            }
            if !all_digits_range(s, p + 1, len) {
                return None;
            }
            let frac: String = String::from_str(s.substring_char(p + 1, len));
            if p == 0 {
                if len == 1 {
                    return None;
                }
                Some((0, frac))
            } else {
                match parse_digit_run(s, 0, p) {
                    Some(v) => Some((v, frac)),
                    None => None,
                }
            }
        },
    }
}

/// Ten to the power `e`.
pub open spec fn pow10(e: nat) -> nat
    decreases e,
{
    if e == 0 {
        1
    } else {
        10 * pow10((e - 1) as nat)
    }
}

/// Powers of ten are positive.
pub proof fn lemma_pow10_pos(e: nat)
    ensures
        pow10(e) >= 1,
    decreases e,
{
    if e > 0 {
        lemma_pow10_pos((e - 1) as nat);
    }
}

/// The character of a single decimal digit.
pub open spec fn digit_char(n: nat) -> char {
    if n == 0 {
        '0'
    } else if n == 1 {
        '1'
    } else if n == 2 {
        '2'
    } else if n == 3 {
        '3'
    } else if n == 4 {
        '4'
    } else if n == 5 {
        '5'
    } else if n == 6 {
        '6'
    } else if n == 7 {
        '7'
    } else if n == 8 {
        '8'
    } else {
        '9'
    }
}

/// The decimal numeral of `n`, without sign or leading zeros.
pub open spec fn dec_str(n: nat) -> Seq<char>
    decreases n,
{
    if n < 10 {
        seq![digit_char(n)]
    } else {
        dec_str(n / 10).push(digit_char(n % 10))
    }
}

/// The decimal numeral of `n`, with a leading minus sign when negative.
pub open spec fn signed_dec_str(n: int) -> Seq<char> {
    if n < 0 {
        seq!['-'] + dec_str((-n) as nat)
    } else {
        dec_str(n as nat)
    }
}

fn digit_str(d: u64) -> (r: &'static str)
    requires
        d < 10,
    ensures
        r@ == seq![digit_char(d as nat)],
{
    proof {
        reveal_strlit("0");
        reveal_strlit("1");
        reveal_strlit("2");
        reveal_strlit("3");
        reveal_strlit("4");
        reveal_strlit("5");
        reveal_strlit("6");
        reveal_strlit("7");
        reveal_strlit("8");
        reveal_strlit("9");
    }
    let r: &'static str = match d {
        0 => "0",
        1 => "1",
        2 => "2",
        3 => "3",
        4 => "4",
        5 => "5",
        6 => "6",
        7 => "7",
        8 => "8",
        _ => "9",
    };
    proof {
        assert(r@ =~= seq![digit_char(d as nat)]);
    }
    r
}

/// Formats `n` as its decimal numeral.
pub fn u64_to_string(n: u64) -> (r: String)
    ensures
        r@ == dec_str(n as nat),
    decreases n,
{
    if n < 10 {
        String::from_str(digit_str(n))
    } else {
        let mut s: String = u64_to_string(n / 10);
        s.append(digit_str(n % 10));
        proof {
            assert(dec_str((n / 10) as nat) + seq![digit_char((n % 10) as nat)] =~= dec_str(
                n as nat,
            ));
        }
        s
    }
}

/// Formats `n` as its decimal numeral with sign.
pub fn i64_to_string(n: i64) -> (r: String)
    ensures
        r@ == signed_dec_str(n as int),
{
    if n >= 0 {
        u64_to_string(n as u64)
    } else {
        let mag: u64 = if n == i64::MIN {
            9223372036854775808u64
        } else {
            (0 - n) as u64
        };
        let mut s: String = String::from_str("-");
        let digits: String = u64_to_string(mag);
        s.append(digits.as_str());
        proof {
            reveal_strlit("-");
            assert(("-")@ + dec_str(mag as nat) =~= signed_dec_str(n as int));
        }
        s
    }
}

/// Splits an optional leading sign off `s`: the flag says whether the
/// sign was a minus.
pub open spec fn sign_split(s: Seq<char>) -> (bool, Seq<char>) {
    if s.len() >= 1 && (s[0] == '-' || s[0] == '+') {
        (s[0] == '-', s.skip(1))
    } else {
        (false, s)
    }
}

/// Exec counterpart of `sign_split`; the body is returned as a copy.
pub fn split_sign(s: &str) -> (r: (bool, String))
    ensures
        r.0 == sign_split(s@).0,
        r.1@ == sign_split(s@).1,
{
    let len: usize = s.unicode_len();
    if len >= 1 {
        let first: char = s.get_char(0);
        if first == '-' || first == '+' {
            let body: String = String::from_str(s.substring_char(1, len));
            proof {
                assert(body@ =~= s@.skip(1));
            }
            return (first == '-', body);
        }
    }
    (false, String::from_str(s))
}

/// The index of the first occurrence of `c` in `s`, or minus one.
pub open spec fn first_index_of(s: Seq<char>, c: char) -> int
    decreases s.len(),
{
    if s.len() == 0 {
        -1
    } else if s[0] == c {
        0
    } else if first_index_of(s.skip(1), c) >= 0 {
        first_index_of(s.skip(1), c) + 1
    } else {
        -1
    }
}

/// Finds the first occurrence of `c` in `s`.
pub fn find_first_char(s: &str, c: char) -> (r: Option<usize>)
    ensures
        match r {
            Some(i) => i < s@.len() && first_index_of(s@, c) == i as int,
            None => first_index_of(s@, c) == -1,
        },
{
    let len: usize = s.unicode_len();
    let mut i: usize = 0;
    while i < len
        invariant
            i <= len,
            len == s@.len(),
            forall|j: int| 0 <= j < i ==> s@[j] != c,
        decreases len - i,
    {
        if s.get_char(i) == c {
            proof {
                lemma_first_index_found(s@, c, i as int);
            }
            return Some(i);
        }
        i = i + 1;
    }
    proof {
        lemma_first_index_none(s@, c);
    }
    None
}

proof fn lemma_first_index_found(s: Seq<char>, c: char, p: int)
    requires
        0 <= p < s.len(),
        s[p] == c,
        forall|j: int| 0 <= j < p ==> s[j] != c,
    ensures
        first_index_of(s, c) == p,
    decreases p,
{
    if p > 0 {
        lemma_first_index_found(s.skip(1), c, p - 1);
    }
}

proof fn lemma_first_index_none(s: Seq<char>, c: char)
    requires
        forall|j: int| 0 <= j < s.len() ==> s[j] != c,
    ensures
        first_index_of(s, c) == -1,
    decreases s.len(),
{
    if s.len() > 0 {
        lemma_first_index_none(s.skip(1), c);
    }
}

/// The largest scaled reading the numeral parsers compute: past it no
/// unit scaling can bring a reading back onto the 64-bit clock.
pub const SCALE_CAP: u128 = 0xFFFF_FFFF_FFFF_FFFF * 1_000_000_000;

/// Powers of ten are monotone.
pub proof fn lemma_pow10_mono(a: nat, b: nat)
    requires
        a <= b,
    ensures
        pow10(a) <= pow10(b),
    decreases b,
{
    if a < b {
        lemma_pow10_mono(a, (b - 1) as nat);
        lemma_pow10_pos((b - 1) as nat);
    }
}

/// Ten to the twentieth exceeds the 64-bit range.
pub proof fn lemma_pow10_twenty()
    ensures
        pow10(20) > u64::MAX,
{
    reveal_with_fuel(pow10, 22);
}

/// Ten to the twenty-ninth exceeds the largest scaled reading.
pub proof fn lemma_pow10_twentynine()
    ensures
        pow10(29) > SCALE_CAP,
{
    reveal_with_fuel(pow10, 31);
}

/// A quotient bound turns into a product bound.
pub proof fn lemma_mul_div_gt(x: nat, p: nat, cap: nat)
    requires
        p >= 1,
        x > cap / p,
    ensures
        x * p > cap,
{
    vstd::arithmetic::div_mod::lemma_fundamental_div_mod(cap as int, p as int);
    assert(x * p >= (cap / p + 1) * p) by (nonlinear_arith)
        requires
            x >= cap / p + 1,
            p >= 1,
    ;
    assert((cap / p + 1) * p == (cap / p) * p + p) by (nonlinear_arith);
    assert(cap % p < p) by {
        vstd::arithmetic::div_mod::lemma_mod_bound(cap as int, p as int);
    }
    assert((cap / p) * p + p > (cap / p) * p + cap % p);
    assert(cap == p * (cap / p) + cap % p);
    assert((cap / p) * p == p * (cap / p)) by (nonlinear_arith);
}

/// A quotient bound turns into a product bound, the other way.
pub proof fn lemma_mul_div_le(x: nat, p: nat, cap: nat)
    requires
        p >= 1,
        x <= cap / p,
    ensures
        x * p <= cap,
{
    vstd::arithmetic::div_mod::lemma_fundamental_div_mod(cap as int, p as int);
    assert(x * p <= (cap / p) * p) by (nonlinear_arith)
        requires
            x <= cap / p,
            p >= 1,
    ;
    assert(cap % p >= 0) by {
        vstd::arithmetic::div_mod::lemma_mod_bound(cap as int, p as int);
    }
    assert(cap == p * (cap / p) + cap % p);
    assert((cap / p) * p == p * (cap / p)) by (nonlinear_arith);
}

/// Exec table of powers of ten up to the cap's width.
pub fn pow10_exec_wide(e: usize) -> (r: u128)
    requires
        e <= 28,
    ensures
        r as nat == pow10(e as nat),
{
    proof {
        reveal_with_fuel(pow10, 30);
    }
    match e {
        0 => 1,
        1 => 10,
        2 => 100,
        3 => 1_000,
        4 => 10_000,
        5 => 100_000,
        6 => 1_000_000,
        7 => 10_000_000,
        8 => 100_000_000,
        9 => 1_000_000_000,
        10 => 10_000_000_000,
        11 => 100_000_000_000,
        12 => 1_000_000_000_000,
        13 => 10_000_000_000_000,
        14 => 100_000_000_000_000,
        15 => 1_000_000_000_000_000,
        16 => 10_000_000_000_000_000,
        17 => 100_000_000_000_000_000,
        18 => 1_000_000_000_000_000_000,
        19 => 10_000_000_000_000_000_000,
        20 => 100_000_000_000_000_000_000,
        21 => 1_000_000_000_000_000_000_000,
        22 => 10_000_000_000_000_000_000_000,
        23 => 100_000_000_000_000_000_000_000,
        24 => 1_000_000_000_000_000_000_000_000,
        25 => 10_000_000_000_000_000_000_000_000,
        26 => 100_000_000_000_000_000_000_000_000,
        27 => 1_000_000_000_000_000_000_000_000_000,
        28 => 10_000_000_000_000_000_000_000_000_000,
        _ => 10_000_000_000_000_000_000_000_000_000,
    }
}

/// Reads the digit run `s[from..to]` in base ten, wide.
///
/// Returns `None` exactly when the range is empty, holds a non-digit, or
/// its value does not fit in `u128`.
fn parse_digit_run_wide(s: &str, from: usize, to: usize) -> (r: Option<u128>)
    requires
        from <= to <= s@.len(),
    ensures
        ({
            let sub = s@.subrange(from as int, to as int);
            match r {
                Some(v) => from < to && all_digits(sub) && v as nat == dec_val(sub),
                None => !(from < to && all_digits(sub) && dec_val(sub) <= u128::MAX),
            }
        }),
{
    let ghost sub = s@.subrange(from as int, to as int);
    if from == to {
        return None;
    }
    let mut acc: u128 = 0;
    let mut i: usize = from;
    while i < to
        invariant
            from <= i <= to <= s@.len(),
            sub == s@.subrange(from as int, to as int),
            all_digits(sub.take(i - from)),
            acc as nat == dec_val(sub.take(i - from)),
        decreases to - i,
    {
        let c: char = s.get_char(i);
        proof {
            assert(sub[i - from] == s@[i as int]);
        }
        if !('0' <= c && c <= '9') {
            assert(!all_digits(sub));
            return None;
        }
        let d: u8 = (c as u8) - ('0' as u8);
        proof {
            assert(sub.take(i - from + 1).take(i - from) =~= sub.take(i - from));
            assert(dec_val(sub.take(i - from + 1)) == acc * 10 + d);
        }
        if acc > (u128::MAX - (d as u128)) / 10 {
            proof {
                lemma_dec_val_take_le(sub, i - from + 1);
            }
            return None;
        }
        acc = acc * 10 + (d as u128);
        i = i + 1;
    }
    proof {
        assert(sub.take(to - from) =~= sub);
    }
    Some(acc)
}

/// Splits a numeral at its first exponent marker, `e` or `E`.
pub open spec fn split_at_exp(s: Seq<char>) -> Option<(Seq<char>, Seq<char>)>
    decreases s.len(),
{
    if s.len() == 0 {
        None
    } else if s[0] == 'e' || s[0] == 'E' {
        Some((Seq::empty(), s.skip(1)))
    } else {
        match split_at_exp(s.skip(1)) {
            Some(p) => Some((seq![s[0]] + p.0, p.1)),
            None => None,
        }
    }
}

proof fn lemma_split_at_exp_found(s: Seq<char>, p: int)
    requires
        0 <= p < s.len(),
        s[p] == 'e' || s[p] == 'E',
        forall|j: int| 0 <= j < p ==> s[j] != 'e' && s[j] != 'E',
    ensures
        split_at_exp(s) == Some((s.take(p), s.skip(p + 1))),
    decreases p,
{
    if p == 0 {
        assert(s.take(0) =~= Seq::<char>::empty());
    } else {
        lemma_split_at_exp_found(s.skip(1), p - 1);
        assert(seq![s[0]] + s.skip(1).take(p - 1) =~= s.take(p));
        assert(s.skip(1).skip(p) =~= s.skip(p + 1));
    }
}

proof fn lemma_split_at_exp_none(s: Seq<char>)
    requires
        forall|j: int| 0 <= j < s.len() ==> s[j] != 'e' && s[j] != 'E',
    ensures
        split_at_exp(s) is None,
    decreases s.len(),
{
    if s.len() > 0 {
        lemma_split_at_exp_none(s.skip(1));
    }
}

/// The mantissa parts and the signed exponent of a decimal numeral,
/// optionally in scientific notation; a plain numeral reads with
/// exponent zero.  The mantissa's integer part must fit 64 bits and
/// the exponent's magnitude must stay within 9999: readings beyond
/// either bound are rejected.
pub open spec fn sci_parts(s: Seq<char>) -> Option<((nat, Seq<char>), int)> {
    match split_at_exp(s) {
        None => match decimal_parts(s) {
            Some(p) => if p.0 <= u64::MAX as nat {
                Some((p, 0))
            } else {
                None
            },
            None => None,
        },
        Some(me) => match (decimal_parts(me.0), signed_int_val(me.1)) {
            (Some(p), Some(e)) => if p.0 <= u64::MAX as nat && -9999 <= e <= 9999 {
                Some((p, e))
            } else {
                None
            },
            _ => None,
        },
    }
}

/// The reading of the mantissa `ip.frac` with the decimal point moved
/// `m` places right, truncated to an integer: floor of
/// `(ip + 0.frac) * 10^m`.
pub open spec fn shifted_val(ip: nat, frac: Seq<char>, m: int) -> nat {
    if m <= 0 {
        ip / pow10((-m) as nat)
    } else if m <= frac.len() {
        ip * pow10(m as nat) + dec_val(frac.take(m))
    } else {
        (ip * pow10(frac.len()) + dec_val(frac)) * pow10((m - frac.len()) as nat)
    }
}

/// Computes `ip * 10^d + fv` against the scaled-reading cap.
fn mul_pow10_add(ip: u64, d: usize, fv: u128) -> (r: Option<u128>)
    ensures
        match r {
            Some(v) => v as nat == (ip as nat) * pow10(d as nat) + (fv as nat) && v <= 2
                * SCALE_CAP,
            None => (ip as nat) * pow10(d as nat) + (fv as nat) > SCALE_CAP as nat,
        },
{
    if ip == 0 {
        proof {
            assert((0 as nat) * pow10(d as nat) == 0) by (nonlinear_arith);
        }
        if fv <= SCALE_CAP {
            return Some(fv);
        } else {
            return None;
        }
    }
    if d >= 29 {
        proof {
            lemma_pow10_twentynine();
            lemma_pow10_mono(29, d as nat);
            assert((ip as nat) * pow10(d as nat) >= pow10(d as nat)) by (nonlinear_arith)
                requires
                    ip as nat >= 1,
            ;
        }
        return None;
    }
    let p: u128 = pow10_exec_wide(d);
    proof {
        lemma_pow10_pos(d as nat);
    }
    let q: u128 = SCALE_CAP / p;
    if (ip as u128) > q {
        proof {
            lemma_mul_div_gt(ip as nat, pow10(d as nat), SCALE_CAP as nat);
        }
        return None;
    }
    proof {
        lemma_mul_div_le(ip as nat, pow10(d as nat), SCALE_CAP as nat);
    }
    let base: u128 = (ip as u128) * p;
    if fv > SCALE_CAP {
        return None;
    }
    Some(base + fv)
}

/// Computes the shifted mantissa reading against the scaled-reading
/// cap.
fn shifted_exec(ip: u64, frac: &str, m: i64) -> (r: Option<u128>)
    requires
        all_digits(frac@),
        -20000 <= m <= 20000,
    ensures
        match r {
            Some(v) => v as nat == shifted_val(ip as nat, frac@, m as int) && v
                <= SCALE_CAP,
            None => shifted_val(ip as nat, frac@, m as int) > SCALE_CAP as nat,
        },
{
    let flen: usize = frac.unicode_len();
    if m <= 0 {
        let k: u64 = (0 - m) as u64;
        if k >= 20 {
            proof {
                lemma_pow10_twenty();
                lemma_pow10_mono(20, k as nat);
                assert((ip as nat) / pow10(k as nat) == 0) by (nonlinear_arith)
                    requires
                        (ip as nat) < pow10(k as nat),
                        pow10(k as nat) >= 1,
                ;
            }
            return Some(0);
        }
        let p: u128 = pow10_exec_wide(k as usize);
        proof {
            lemma_pow10_pos(k as nat);
            assert((ip as u128) / p <= ip as u128) by (nonlinear_arith)
                requires
                    p >= 1,
                    ip as u128 >= 0,
            ;
        }
        return Some((ip as u128) / p);
    }
    if (m as usize) <= flen {
        let mu: usize = m as usize;
        proof {
            assert(frac@.subrange(0, mu as int) =~= frac@.take(mu as int));
        }
        let fv: u128 = match parse_digit_run_wide(frac, 0, mu) {
            Some(v) => v,
            None => {
                proof {
                    assert(all_digits(frac@.take(mu as int)));
                    assert(SCALE_CAP < u128::MAX);
                    assert((ip as nat) * pow10(mu as nat) >= 0) by (nonlinear_arith);
                }
                return None;
            },
        };
        match mul_pow10_add(ip, mu, fv) {
            Some(v) => {
                if v <= SCALE_CAP {
                    return Some(v);
                } else {
                    return None;
                }
            },
            None => {
                return None;
            },
        }
    }
    // the whole fraction contributes, then the point moves further right
    proof {
        assert(frac@.subrange(0, flen as int) =~= frac@);
        assert(frac@.take(flen as int) =~= frac@);
    }
    let fv: u128 = if flen == 0 {
        0
    } else {
        match parse_digit_run_wide(frac, 0, flen) {
            Some(v) => v,
            None => {
                proof {
                    let ghost tail = (m - frac@.len()) as nat;
                    lemma_pow10_pos(tail);
                    assert(SCALE_CAP < u128::MAX);
                    assert((ip as nat) * pow10(frac@.len()) >= 0) by (nonlinear_arith);
                    assert(((ip as nat) * pow10(frac@.len()) + dec_val(frac@)) * pow10(tail)
                        >= (ip as nat) * pow10(frac@.len()) + dec_val(frac@))
                        by (nonlinear_arith)
                        requires
                            pow10(tail) >= 1,
                            (ip as nat) * pow10(frac@.len()) + dec_val(frac@) >= 0,
                    ;
                }
                return None;
            },
        }
    };
    let base: u128 = match mul_pow10_add(ip, flen, fv) {
        Some(v) => v,
        None => {
            proof {
                let ghost tail = (m - frac@.len()) as nat;
                let ghost b = (ip as nat) * pow10(frac@.len()) + dec_val(frac@);
                lemma_pow10_pos(tail);
                assert(b * pow10(tail) >= b) by (nonlinear_arith)
                    requires
                        pow10(tail) >= 1,
                        b >= 0,
                ;
            }
            return None;
        },
    };
    let ghost tail = (m - frac@.len()) as nat;
    let e2: usize = (m as usize) - flen;
    if base == 0 {
        proof {
            assert((0 as nat) * pow10(tail) == 0) by (nonlinear_arith);
        }
        return Some(0);
    }
    if base > SCALE_CAP {
        proof {
            lemma_pow10_pos(tail);
            assert((base as nat) * pow10(tail) >= base as nat) by (nonlinear_arith)
                requires
                    pow10(tail) >= 1,
                    base as nat >= 0,
            ;
        }
        return None;
    }
    if e2 >= 29 {
        proof {
            lemma_pow10_twentynine();
            lemma_pow10_mono(29, tail);
            assert((base as nat) * pow10(tail) >= pow10(tail)) by (nonlinear_arith)
                requires
                    base as nat >= 1,
            ;
        }
        return None;
    }
    let p2: u128 = pow10_exec_wide(e2);
    proof {
        lemma_pow10_pos(tail);
    }
    let q2: u128 = SCALE_CAP / p2;
    if base > q2 {
        proof {
            lemma_mul_div_gt(base as nat, pow10(tail), SCALE_CAP as nat);
        }
        return None;
    }
    proof {
        lemma_mul_div_le(base as nat, pow10(tail), SCALE_CAP as nat);
    }
    Some(base * p2)
}

/// Finds the first exponent marker of `s`, `e` or `E`.
fn find_first_exp(s: &str) -> (r: Option<usize>)
    ensures
        match r {
            Some(p) => p < s@.len() && (s@[p as int] == 'e' || s@[p as int] == 'E') && (forall|
                j: int,
            |
                0 <= j < p ==> s@[j] != 'e' && s@[j] != 'E'),
            None => forall|j: int| 0 <= j < s@.len() ==> s@[j] != 'e' && s@[j] != 'E',
        },
{
    let len: usize = s.unicode_len();
    let mut i: usize = 0;
    while i < len
        invariant
            i <= len,
            len == s@.len(),
            forall|j: int| 0 <= j < i ==> s@[j] != 'e' && s@[j] != 'E',
        decreases len - i,
    {
        let c: char = s.get_char(i);
        if c == 'e' || c == 'E' {
            return Some(i);
        }
        i = i + 1;
    }
    None
}

/// The reading of a numeral against the scaled-reading cap: outside
/// the grammar, past the cap, or its value.
pub enum ScaledReading {
    /// The text is not a numeral of the grammar.
    Invalid,
    /// The numeral reads, but past the cap.
    TooBig,
    /// The numeral's reading.
    Value(u128),
}

/// Reads a decimal numeral, optionally in scientific notation, as the
/// integer reading of `mantissa × 10^(exponent + offset)`, truncated.
pub fn parse_scaled_decimal(s: &str, offset: u32) -> (r: ScaledReading)
    requires
        offset <= 9,
    ensures
        match r {
            ScaledReading::Invalid => sci_parts(s@) is None,
            ScaledReading::TooBig => sci_parts(s@) matches Some(pe) && shifted_val(
                pe.0.0,
                pe.0.1,
                pe.1 + offset as int,
            ) > SCALE_CAP as nat,
            ScaledReading::Value(v) => sci_parts(s@) matches Some(pe) && v as nat == shifted_val(
                pe.0.0,
                pe.0.1,
                pe.1 + offset as int,
            ) && v <= SCALE_CAP,
        },
{
    let len: usize = s.unicode_len();
    let mant: String;
    let exp: i64;
    match find_first_exp(s) {
        None => {
            proof {
                lemma_split_at_exp_none(s@);
            }
            mant = String::from_str(s);
            exp = 0;
        },
        Some(q) => {
            proof {
                lemma_split_at_exp_found(s@, q as int);
                assert(s@.subrange(0, q as int) =~= s@.take(q as int));
                assert(s@.subrange(q + 1, s@.len() as int) =~= s@.skip(q + 1));
            }
            mant = String::from_str(s.substring_char(0, q));
            let epart: &str = s.substring_char(q + 1, len);
            match parse_i64(epart) {
                Some(v) => {
                    if -9999 <= v && v <= 9999 {
                        exp = v;
                    } else {
                        return ScaledReading::Invalid;
                    }
                },
                None => {
                    return ScaledReading::Invalid;
                },
            }
        },
    }
    let parts: (u64, String) = match parse_decimal_str(mant.as_str()) {
        Some(p) => p,
        None => {
            return ScaledReading::Invalid;
        },
    };
    proof {
        assert(crate::strutil::decimal_parts(mant@) matches Some(q) && q.1 == parts.1@);
    }
    match shifted_exec(parts.0, parts.1.as_str(), exp + offset as i64) {
        Some(v) => ScaledReading::Value(v),
        None => ScaledReading::TooBig,
    }
}

} // verus!
