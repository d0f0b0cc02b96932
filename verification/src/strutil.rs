//! Verified text helpers: decimal and hex rendering, decimal parsing,
//! equality and prefix tests, substring search and replacement, splitting
//! and whitespace tokenization.
//!
//! The control plane derives device names, socket paths, IP addresses and
//! command lines from tenant data, and parses kernel tool output; all of
//! that text handling is verified here against character-level
//! specifications.

use vstd::prelude::*;

verus! {

// ---------------------------------------------------------------------------
// Character classes
// ---------------------------------------------------------------------------

/// Whitespace as produced by the kernel tools whose output the core parses.
pub open spec fn is_ws(c: char) -> bool {
    c == ' ' || c == '\n' || c == '\t' || c == '\r'
}

/// ASCII decimal digit.
pub open spec fn is_digit(c: char) -> bool {
    48 <= c as u32 <= 57
}

/// Numeric value of an ASCII decimal digit.
pub open spec fn digit_val(c: char) -> int {
    c as u32 - 48
}

/// The ASCII character for a decimal digit value.
pub open spec fn digit_char(d: int) -> char {
    if d == 0 {
        '0'
    } else if d == 1 {
        '1'
    } else if d == 2 {
        '2'
    } else if d == 3 {
        '3'
    } else if d == 4 {
        '4'
    } else if d == 5 {
        '5'
    } else if d == 6 {
        '6'
    } else if d == 7 {
        '7'
    } else if d == 8 {
        '8'
    } else {
        '9'
    }
}

/// The ASCII character for a hex digit value, upper case.
pub open spec fn hex_char(d: int) -> char {
    if d < 10 {
        digit_char(d)
    } else if d == 10 {
        'A'
    } else if d == 11 {
        'B'
    } else if d == 12 {
        'C'
    } else if d == 13 {
        'D'
    } else if d == 14 {
        'E'
    } else {
        'F'
    }
}

// ---------------------------------------------------------------------------
// Decimal rendering
// ---------------------------------------------------------------------------

/// Decimal rendering of a natural number, most significant digit first.
pub open spec fn dec_str(n: nat) -> Seq<char>
    decreases n,
{
    if n < 10 {
        seq![digit_char(n as int)]
    } else {
        dec_str(n / 10).push(digit_char((n % 10) as int))
    }
}

/// One-character string for a decimal digit.
fn digit_literal(d: u64) -> (r: &'static str)
    requires
        d < 10,
    ensures
        r@ =~= seq![digit_char(d as int)],
{
    proof {
        reveal_strlit("0");
        reveal_strlit("1");
        reveal_strlit("2");
        reveal_strlit("3");
        reveal_strlit("4");
        reveal_strlit("5");
        reveal_strlit("6");
        reveal_strlit("7");
        reveal_strlit("8");
        reveal_strlit("9");
    }
    match d {
        0 => "0",
        1 => "1",
        2 => "2",
        3 => "3",
        4 => "4",
        5 => "5",
        6 => "6",
        7 => "7",
        8 => "8",
        _ => "9",
    }
}

/// Renders `n` in decimal.
pub fn u64_to_string(n: u64) -> (r: String)
    ensures
        r@ == dec_str(n as nat),
    decreases n,
{
    if n < 10 {
        String::from_str(digit_literal(n))
    } else {
        let mut r = u64_to_string(n / 10);
        r.append(digit_literal(n % 10));
        proof {
            assert(r@ =~= dec_str((n / 10) as nat).push(digit_char((n % 10) as int)));
        }
        r
    }
}

// ---------------------------------------------------------------------------
// Hex rendering
// ---------------------------------------------------------------------------

/// Two upper-case hex digits for a byte.
pub open spec fn hex2(b: u8) -> Seq<char> {
    seq![hex_char(b as int / 16), hex_char(b as int % 16)]
}

/// One-character string for a hex digit value.
fn hex_literal(d: u8) -> (r: &'static str)
    requires
        d < 16,
    ensures
        r@ =~= seq![hex_char(d as int)],
{
    proof {
        reveal_strlit("A");
        reveal_strlit("B");
        reveal_strlit("C");
        reveal_strlit("D");
        reveal_strlit("E");
        reveal_strlit("F");
    }
    if d < 10 {
        digit_literal(d as u64)
    } else {
        match d {
            10 => "A",
            11 => "B",
            12 => "C",
            13 => "D",
            14 => "E",
            _ => "F",
        }
    }
}

/// Renders a byte as two upper-case hex digits.
pub fn byte_to_hex(b: u8) -> (r: String)
    ensures
        r@ == hex2(b),
{
    let mut r = String::from_str(hex_literal(b / 16));
    r.append(hex_literal(b % 16));
    proof {
        assert(r@ =~= hex2(b));
    }
    r
}

/// Decimal rendering evaluates back to the number: `dec_str` is a
/// right inverse of `dec_val`, its digits are digits, and it is never
/// empty. Hence two numbers with the same rendering are equal.
pub proof fn lemma_dec_str_val(n: nat)
    ensures
        dec_val(dec_str(n)) == n,
        all_digits(dec_str(n)),
        dec_str(n).len() >= 1,
    decreases n,
{
    reveal_with_fuel(dec_val, 3);
    if n < 10 {
        let s = dec_str(n);
        assert(s.drop_last() =~= Seq::<char>::empty());
        assert(dec_val(Seq::<char>::empty()) == 0);
        assert(s.last() == digit_char(n as int));
        assert(is_digit(digit_char(n as int)) && digit_val(digit_char(n as int)) == n);
    } else {
        lemma_dec_str_val(n / 10);
        let s = dec_str(n);
        assert(s.drop_last() == dec_str(n / 10));
        assert(s.last() == digit_char((n % 10) as int));
        assert(is_digit(digit_char((n % 10) as int)) && digit_val(digit_char((n % 10) as int))
            == n % 10);
        assert(forall|i: int| 0 <= i < s.len() - 1 ==> #[trigger] s[i] == dec_str(n / 10)[i]);
    }
}

/// Distinct numbers render as distinct digit strings.
pub proof fn lemma_dec_str_injective(a: nat, b: nat)
    requires
        dec_str(a) == dec_str(b),
    ensures
        a == b,
{
    lemma_dec_str_val(a);
    lemma_dec_str_val(b);
}

// ---------------------------------------------------------------------------
// Decimal parsing
// ---------------------------------------------------------------------------

/// All characters are decimal digits.
pub open spec fn all_digits(s: Seq<char>) -> bool {
    forall|i: int| 0 <= i < s.len() ==> is_digit(#[trigger] s[i])
}

/// Value of a digit string, most significant digit first.
pub open spec fn dec_val(s: Seq<char>) -> nat
    decreases s.len(),
{
    if s.len() == 0 {
        0
    } else {
        (dec_val(s.drop_last()) * 10 + digit_val(s.last())) as nat
    }
}

proof fn lemma_dec_val_take_step(s: Seq<char>, i: int)
    requires
        0 <= i < s.len(),
        is_digit(s[i]),
    ensures
        dec_val(s.take(i + 1)) == dec_val(s.take(i)) * 10 + digit_val(s[i]),
{
    assert(s.take(i + 1).drop_last() =~= s.take(i));
    assert(s.take(i + 1).last() == s[i]);
}

proof fn lemma_dec_val_grows(s: Seq<char>, i: int)
    requires
        0 <= i <= s.len(),
        all_digits(s),
    ensures
        dec_val(s) >= dec_val(s.take(i)),
    decreases s.len() - i,
{
    if i == s.len() {
        assert(s.take(i) =~= s);
    } else {
        assert(is_digit(s[i]));
        lemma_dec_val_take_step(s, i);
        assert(dec_val(s.take(i + 1)) >= dec_val(s.take(i)));
        lemma_dec_val_grows(s, i + 1);
    }
}

/// Parses a decimal number no larger than `max`. Rejects the empty string,
/// any non-digit character, and any value above `max`.
pub fn parse_dec_max(s: &str, max: u32) -> (r: Option<u32>)
    ensures
        r == (if s@.len() > 0 && all_digits(s@) && dec_val(s@) <= max {
            Some(dec_val(s@) as u32)
        } else {
            None::<u32>
        }),
{
    let n = s.unicode_len();
    if n == 0 {
        return None;
    }
    let mut acc: u32 = 0;
    let mut i: usize = 0;
    while i < n
        invariant
            0 <= i <= n,
            n == s@.len(),
            all_digits(s@.take(i as int)),
            acc == dec_val(s@.take(i as int)),
            acc <= max,
        decreases n - i,
    {
        let c = s.get_char(i);
        let v = c as u32;
        if v < 48 || v > 57 {
            proof {
                assert(!is_digit(s@[i as int]));
            }
            return None;
        }
        let d = v - 48;
        proof {
            assert(is_digit(s@[i as int]));
            lemma_dec_val_take_step(s@, i as int);
        }
        let next: u64 = acc as u64 * 10 + d as u64;
        if next > max as u64 {
            proof {
                if all_digits(s@) {
                    lemma_dec_val_grows(s@, i + 1);
                    assert(dec_val(s@) >= dec_val(s@.take(i + 1)));
                }
            }
            return None;
        }
        acc = next as u32;
        i = i + 1;
        proof {
            assert(all_digits(s@.take(i as int))) by {
                assert(forall|k: int| 0 <= k < i ==> #[trigger] s@.take(i as int)[k] == s@[k]);
            }
        }
    }
    proof {
        assert(s@.take(n as int) =~= s@);
    }
    Some(acc)
}

/// Parses a `u16` from decimal digits.
pub fn parse_u16(s: &str) -> (r: Option<u16>)
    ensures
        r == (if s@.len() > 0 && all_digits(s@) && dec_val(s@) <= u16::MAX {
            Some(dec_val(s@) as u16)
        } else {
            None::<u16>
        }),
{
    match parse_dec_max(s, 65535) {
        Some(v) => Some(v as u16),
        None => None,
    }
}

/// Parses a `u8` from decimal digits.
pub fn parse_u8(s: &str) -> (r: Option<u8>)
    ensures
        r == (if s@.len() > 0 && all_digits(s@) && dec_val(s@) <= u8::MAX {
            Some(dec_val(s@) as u8)
        } else {
            None::<u8>
        }),
{
    match parse_dec_max(s, 255) {
        Some(v) => Some(v as u8),
        None => None,
    }
}

// ---------------------------------------------------------------------------
// Equality, prefixes, substring search
// ---------------------------------------------------------------------------

/// Character-for-character string equality.
pub fn str_eq(a: &str, b: &str) -> (r: bool)
    ensures
        r == (a@ == b@),
{
    let na = a.unicode_len();
    let nb = b.unicode_len();
    if na != nb {
        return false;
    }
    let mut i: usize = 0;
    while i < na
        invariant
            0 <= i <= na,
            na == a@.len(),
            na == b@.len(),
            forall|k: int| 0 <= k < i ==> a@[k] == b@[k],
        decreases na - i,
    {
        if a.get_char(i) != b.get_char(i) {
            return false;
        }
        i = i + 1;
    }
    proof {
        assert(a@ =~= b@);
    }
    true
}

/// Two characters equal up to ASCII case.
pub open spec fn ieq_char(a: char, b: char) -> bool {
    ||| a as u32 == b as u32
    ||| (65 <= a as u32 <= 90 && b as u32 == a as u32 + 32)
    ||| (65 <= b as u32 <= 90 && a as u32 == b as u32 + 32)
}

/// Two strings equal up to ASCII case.
pub open spec fn str_ieq(a: Seq<char>, b: Seq<char>) -> bool {
    a.len() == b.len() && forall|i: int| 0 <= i < a.len() ==> ieq_char(#[trigger] a[i], b[i])
}

/// Character-for-character equality ignoring ASCII case.
pub fn eq_ignore_ascii_case(a: &str, b: &str) -> (r: bool)
    ensures
        r == str_ieq(a@, b@),
{
    let na = a.unicode_len();
    let nb = b.unicode_len();
    if na != nb {
        return false;
    }
    let mut i: usize = 0;
    while i < na
        invariant
            0 <= i <= na,
            na == a@.len(),
            na == b@.len(),
            forall|k: int| 0 <= k < i ==> ieq_char(#[trigger] a@[k], b@[k]),
        decreases na - i,
    {
        let ca = a.get_char(i) as u32;
        let cb = b.get_char(i) as u32;
        let fa = if 65 <= ca && ca <= 90 {
            ca + 32
        } else {
            ca
        };
        let fb = if 65 <= cb && cb <= 90 {
            cb + 32
        } else {
            cb
        };
        if fa != fb {
            proof {
                assert(!ieq_char(a@[i as int], b@[i as int]));
            }
            return false;
        }
        i = i + 1;
    }
    true
}

/// Whether `pat` occurs in `s` starting at position `at`.
pub open spec fn matches_at(s: Seq<char>, pat: Seq<char>, at: int) -> bool {
    0 <= at && at + pat.len() <= s.len() && s.subrange(at, at + pat.len()) == pat
}

fn check_match_at(s: &str, pat: &str, at: usize) -> (r: bool)
    requires
        at + pat@.len() <= s@.len(),
    ensures
        r == matches_at(s@, pat@, at as int),
{
    let n = s.unicode_len();
    let m = pat.unicode_len();
    let mut i: usize = 0;
    while i < m
        invariant
            0 <= i <= m,
            n == s@.len(),
            m == pat@.len(),
            at + m <= n,
            forall|k: int| 0 <= k < i ==> s@[at + k] == pat@[k],
        decreases m - i,
    {
        if s.get_char(at + i) != pat.get_char(i) {
            proof {
                assert(s@.subrange(at as int, at + m) != pat@) by {
                    assert(s@.subrange(at as int, at + m)[i as int] == s@[at + i]);
                }
            }
            return false;
        }
        i = i + 1;
    }
    proof {
        assert(s@.subrange(at as int, at + m) =~= pat@);
    }
    true
}

/// Whether `pat` is a prefix of `s`.
pub fn starts_with(s: &str, pat: &str) -> (r: bool)
    ensures
        r == pat@.is_prefix_of(s@),
{
    let m = pat.unicode_len();
    if m > s.unicode_len() {
        return false;
    }
    check_match_at(s, pat, 0)
}

/// First position where `pat` occurs in `s`, if any.
pub fn find_sub(s: &str, pat: &str) -> (r: Option<usize>)
    ensures
        match r {
            Some(at) => matches_at(s@, pat@, at as int) && forall|j: int|
                0 <= j < at ==> !matches_at(s@, pat@, j),
            None => forall|j: int| !matches_at(s@, pat@, j),
        },
{
    let n = s.unicode_len();
    let m = pat.unicode_len();
    if m > n {
        return None;
    }
    if m == 0 {
        proof {
            assert(s@.subrange(0, 0) =~= pat@);
        }
        return Some(0);
    }
    let limit = n - m;
    let mut at: usize = 0;
    while at <= limit
        invariant
            0 <= at <= limit + 1,
            limit == n - m,
            0 < m <= n,
            n == s@.len(),
            m == pat@.len(),
            forall|j: int| 0 <= j < at ==> !matches_at(s@, pat@, j),
        decreases limit + 1 - at,
    {
        if check_match_at(s, pat, at) {
            return Some(at);
        }
        at = at + 1;
    }
    None
}

/// Whether `pat` occurs anywhere in `s`.
pub fn contains_sub(s: &str, pat: &str) -> (r: bool)
    ensures
        r == exists|j: int| matches_at(s@, pat@, j),
{
    match find_sub(s, pat) {
        Some(at) => {
            proof {
                assert(matches_at(s@, pat@, at as int));
            }
            true
        },
        None => false,
    }
}

/// `s` with the first occurrence of `pat` replaced by `repl`; `s` unchanged
/// when `pat` does not occur.
pub fn replace_first(s: &str, pat: &str, repl: &str) -> (r: String)
    ensures
        match first_match(s@, pat@) {
            Some(at) => r@ == s@.subrange(0, at) + repl@ + s@.subrange(
                at + pat@.len(),
                s@.len() as int,
            ),
            None => r@ == s@,
        },
{
    match find_sub(s, pat) {
        Some(at) => {
            proof {
                lemma_first_match_is(s@, pat@, at as int);
            }
            let n = s.unicode_len();
            let m = pat.unicode_len();
            let mut r = String::new();
            r.append(s.substring_char(0, at));
            r.append(repl);
            r.append(s.substring_char(at + m, n));
            r
        },
        None => {
            proof {
                lemma_first_match_none(s@, pat@);
            }
            String::from_str(s)
        },
    }
}

/// First position where `pat` occurs in `s`, as a specification value.
pub open spec fn first_match(s: Seq<char>, pat: Seq<char>) -> Option<int> {
    if exists|j: int| matches_at(s, pat, j) {
        Some(choose|j: int| matches_at(s, pat, j) && forall|k: int|
            0 <= k < j ==> !matches_at(s, pat, k))
    } else {
        None
    }
}

proof fn lemma_first_match_is(s: Seq<char>, pat: Seq<char>, at: int)
    requires
        matches_at(s, pat, at),
        forall|j: int| 0 <= j < at ==> !matches_at(s, pat, j),
    ensures
        first_match(s, pat) == Some(at),
{
    assert(exists|j: int| matches_at(s, pat, j));
    let w = choose|j: int|
        matches_at(s, pat, j) && forall|k: int| 0 <= k < j ==> !matches_at(s, pat, k);
    assert(matches_at(s, pat, at) && forall|k: int| 0 <= k < at ==> !matches_at(s, pat, k));
    if w < at {
        assert(!matches_at(s, pat, w));
    }
    if at < w {
        assert(!matches_at(s, pat, at));
    }
}

proof fn lemma_first_match_none(s: Seq<char>, pat: Seq<char>)
    requires
        forall|j: int| !matches_at(s, pat, j),
    ensures
        first_match(s, pat) is None,
{
}

// ---------------------------------------------------------------------------
// Splitting on a separator character
// ---------------------------------------------------------------------------

/// The pieces of `s` between occurrences of `sep`. Always non-empty; empty
/// input yields one empty piece, like `str::split`.
pub open spec fn split_spec(s: Seq<char>, sep: char) -> Seq<Seq<char>>
    decreases s.len(),
{
    if s.len() == 0 {
        seq![Seq::<char>::empty()]
    } else {
        let rest = split_spec(s.drop_first(), sep);
        if s[0] == sep {
            seq![Seq::<char>::empty()] + rest
        } else {
            seq![seq![s[0]] + rest[0]] + rest.drop_first()
        }
    }
}

pub proof fn lemma_split_len(s: Seq<char>, sep: char)
    ensures
        split_spec(s, sep).len() >= 1,
    decreases s.len(),
{
    if s.len() > 0 {
        lemma_split_len(s.drop_first(), sep);
    }
}

/// Splitting at the first separator: if no separator occurs in the first
/// `j` characters and `j` is either a separator position or the end, the
/// split is the piece before `j` followed by the split of what follows it.
proof fn lemma_split_at_first(s: Seq<char>, sep: char, j: int)
    requires
        0 <= j <= s.len(),
        forall|k: int| 0 <= k < j ==> s[k] != sep,
        j < s.len() ==> s[j] == sep,
    ensures
        j == s.len() ==> split_spec(s, sep) =~~= seq![s],
        j < s.len() ==> split_spec(s, sep) =~~= seq![s.subrange(0, j)] + split_spec(
            s.subrange(j + 1, s.len() as int),
            sep,
        ),
    decreases j,
{
    lemma_split_len(s, sep);
    if j == 0 {
        if 0 < s.len() {
            assert(s.subrange(0, 0) =~= Seq::<char>::empty());
            assert(s.subrange(1, s.len() as int) =~= s.drop_first());
        }
    } else {
        let d = s.drop_first();
        lemma_split_len(d, sep);
        lemma_split_at_first(d, sep, j - 1);
        if j == s.len() {
            assert(split_spec(d, sep) =~~= seq![d]);
            assert(seq![s[0]] + d =~= s);
        } else {
            assert(d.subrange(0, j - 1) =~= s.subrange(1, j));
            assert(d.subrange(j, d.len() as int) =~= s.subrange(j + 1, s.len() as int));
            assert(seq![s[0]] + s.subrange(1, j) =~= s.subrange(0, j));
        }
    }
}

/// First position of `sep` in `s`, if any.
pub fn find_char(s: &str, sep: char) -> (r: Option<usize>)
    ensures
        match r {
            Some(i) => 0 <= i < s@.len() && s@[i as int] == sep && forall|k: int|
                0 <= k < i ==> s@[k] != sep,
            None => forall|k: int| 0 <= k < s@.len() ==> s@[k] != sep,
        },
{
    let n = s.unicode_len();
    let mut i: usize = 0;
    while i < n
        invariant
            0 <= i <= n,
            n == s@.len(),
            forall|k: int| 0 <= k < i ==> s@[k] != sep,
        decreases n - i,
    {
        if s.get_char(i) == sep {
            return Some(i);
        }
        i = i + 1;
    }
    None
}

/// Splits `s` on `sep`, keeping empty pieces.
pub fn split_char(s: &str, sep: char) -> (r: Vec<String>)
    ensures
        r@.len() == split_spec(s@, sep).len(),
        forall|i: int| 0 <= i < r@.len() ==> #[trigger] r@[i]@ == split_spec(s@, sep)[i],
    decreases s@.len(),
{
    let n = s.unicode_len();
    match find_char(s, sep) {
        None => {
            proof {
                lemma_split_at_first(s@, sep, n as int);
            }
            let mut r: Vec<String> = Vec::new();
            r.push(String::from_str(s));
            r
        },
        Some(j) => {
            proof {
                lemma_split_at_first(s@, sep, j as int);
            }
            let head = s.substring_char(0, j);
            let tail = s.substring_char(j + 1, n);
            let rest = split_char(tail, sep);
            let mut r: Vec<String> = Vec::new();
            r.push(String::from_str(head));
            let mut i: usize = 0;
            while i < rest.len()
                invariant
                    0 <= i <= rest@.len(),
                    r@.len() == 1 + i,
                    r@[0]@ == head@,
                    forall|k: int| 1 <= k < r@.len() ==> #[trigger] r@[k]@ == rest@[k - 1]@,
                decreases rest@.len() - i,
            {
                r.push(rest[i].clone());
                i = i + 1;
            }
            proof {
                let full = split_spec(s@, sep);
                assert(full =~~= seq![s@.subrange(0, j as int)] + split_spec(tail@, sep));
                assert forall|i: int| 0 <= i < r@.len() implies #[trigger] r@[i]@ == full[i] by {
                    if i == 0 {
                        assert(r@[0]@ == full[0]);
                    } else {
                        assert(r@[i]@ == rest@[i - 1]@);
                        assert(full[i] == split_spec(tail@, sep)[i - 1]);
                    }
                }
            }
            r
        },
    }
}

// ---------------------------------------------------------------------------
// Whitespace tokenization
// ---------------------------------------------------------------------------

/// The maximal whitespace-free runs of `s`, in order.
pub open spec fn tokens_spec(s: Seq<char>) -> Seq<Seq<char>>
    decreases s.len(),
{
    if s.len() == 0 {
        Seq::<Seq<char>>::empty()
    } else if is_ws(s[0]) {
        tokens_spec(s.drop_first())
    } else {
        let rest = tokens_spec(s.drop_first());
        if s.len() > 1 && !is_ws(s[1]) {
            seq![seq![s[0]] + rest[0]] + rest.drop_first()
        } else {
            seq![seq![s[0]]] + rest
        }
    }
}

proof fn lemma_tokens_nonempty_head(s: Seq<char>)
    requires
        s.len() > 0,
        !is_ws(s[0]),
    ensures
        tokens_spec(s).len() >= 1,
    decreases s.len(),
{
    if s.len() > 1 && !is_ws(s[1]) {
        lemma_tokens_nonempty_head(s.drop_first());
    }
}

/// Skipping leading whitespace does not change the tokens.
proof fn lemma_tokens_skip_ws(s: Seq<char>, i: int)
    requires
        0 <= i <= s.len(),
        forall|k: int| 0 <= k < i ==> is_ws(s[k]),
    ensures
        tokens_spec(s) == tokens_spec(s.subrange(i, s.len() as int)),
    decreases i,
{
    if i == 0 {
        assert(s.subrange(0, s.len() as int) =~= s);
    } else {
        assert(s.subrange(1, s.len() as int) =~= s.drop_first());
        lemma_tokens_skip_ws(s.drop_first(), i - 1);
        assert(s.drop_first().subrange(i - 1, s.drop_first().len() as int) =~= s.subrange(
            i,
            s.len() as int,
        ));
    }
}

/// A leading whitespace-free run of length `j` is the first token.
proof fn lemma_tokens_leading_token(s: Seq<char>, j: int)
    requires
        0 < j <= s.len(),
        forall|k: int| 0 <= k < j ==> !is_ws(s[k]),
        j < s.len() ==> is_ws(s[j]),
    ensures
        tokens_spec(s) =~~= seq![s.subrange(0, j)] + tokens_spec(s.subrange(j, s.len() as int)),
    decreases j,
{
    let d = s.drop_first();
    if j == 1 {
        if s.len() > 1 {
            assert(is_ws(s[1]));
            assert(tokens_spec(s) == seq![seq![s[0]]] + tokens_spec(d));
            assert(seq![s[0]] =~= s.subrange(0, 1));
            assert(d =~= s.subrange(1, s.len() as int));
        } else {
            assert(tokens_spec(s) == seq![seq![s[0]]] + tokens_spec(d));
            assert(seq![s[0]] =~= s.subrange(0, 1));
            assert(d =~= s.subrange(1, s.len() as int));
        }
    } else {
        assert(!is_ws(s[1]));
        lemma_tokens_nonempty_head(d);
        lemma_tokens_leading_token(d, j - 1);
        assert(d.subrange(0, j - 1) =~= s.subrange(1, j));
        assert(d.subrange(j - 1, d.len() as int) =~= s.subrange(j, s.len() as int));
        assert(seq![s[0]] + s.subrange(1, j) =~= s.subrange(0, j));
    }
}

/// First position at or after `from` whose character satisfies / fails
/// the whitespace class, depending on `want_ws`.
fn scan_class(s: &str, from: usize, want_ws: bool) -> (r: usize)
    requires
        from <= s@.len(),
    ensures
        from <= r <= s@.len(),
        forall|k: int| from <= k < r ==> is_ws(s@[k]) != want_ws,
        r < s@.len() ==> is_ws(s@[r as int]) == want_ws,
{
    let n = s.unicode_len();
    let mut i: usize = from;
    while i < n
        invariant
            from <= i <= n,
            n == s@.len(),
            forall|k: int| from <= k < i ==> is_ws(s@[k]) != want_ws,
        decreases n - i,
    {
        let c = s.get_char(i);
        let ws = c == ' ' || c == '\n' || c == '\t' || c == '\r';
        if ws == want_ws {
            return i;
        }
        i = i + 1;
    }
    n
}

/// Splits `s` into its whitespace-separated tokens.
pub fn tokenize(s: &str) -> (r: Vec<String>)
    ensures
        r@.len() == tokens_spec(s@).len(),
        forall|i: int| 0 <= i < r@.len() ==> #[trigger] r@[i]@ == tokens_spec(s@)[i],
    decreases s@.len(),
{
    let n = s.unicode_len();
    let start = scan_class(s, 0, false);
    proof {
        lemma_tokens_skip_ws(s@, start as int);
    }
    if start == n {
        proof {
            assert(s@.subrange(start as int, n as int) =~= Seq::<char>::empty());
        }
        Vec::new()
    } else {
        let stop = scan_class(s, start, true);
        let trimmed = s.substring_char(start, n);
        proof {
            assert(trimmed@ == s@.subrange(start as int, n as int));
            lemma_tokens_leading_token(trimmed@, stop - start);
            assert(trimmed@.subrange(0, stop - start) =~= s@.subrange(start as int, stop as int));
            assert(trimmed@.subrange(stop - start, trimmed@.len() as int) =~= s@.subrange(
                stop as int,
                n as int,
            ));
        }
        let head = s.substring_char(start, stop);
        let tail = s.substring_char(stop, n);
        let rest = tokenize(tail);
        let mut r: Vec<String> = Vec::new();
        r.push(String::from_str(head));
        let mut i: usize = 0;
        while i < rest.len()
            invariant
                0 <= i <= rest@.len(),
                r@.len() == 1 + i,
                r@[0]@ == head@,
                forall|k: int| 1 <= k < r@.len() ==> #[trigger] r@[k]@ == rest@[k - 1]@,
            decreases rest@.len() - i,
        {
            r.push(rest[i].clone());
            i = i + 1;
        }
        proof {
            let full = tokens_spec(s@);
            assert(full =~~= seq![s@.subrange(start as int, stop as int)] + tokens_spec(tail@));
            assert forall|i: int| 0 <= i < r@.len() implies #[trigger] r@[i]@ == full[i] by {
                if i == 0 {
                    assert(r@[0]@ == full[0]);
                } else {
                    assert(r@[i]@ == rest@[i - 1]@);
                    assert(full[i] == tokens_spec(tail@)[i - 1]);
                }
            }
        }
        r
    }
}

} // verus!
