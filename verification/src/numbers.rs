//! Verified parsing of the literal forms attribute values use: integers,
//! booleans, decimal-number syntax, and comma-separated lists of either.

use vstd::prelude::*;

use crate::text::trim_chars;
use crate::text::trimmed;

verus! {

// ---------------------------------------------------------------------------
// Digits and integers
// ---------------------------------------------------------------------------

/// Whether `c` is a decimal digit.
pub open spec fn is_digit(c: char) -> bool {
    48 <= c as u32 <= 57
}

/// The value of the digit `c`.
pub open spec fn digit_val(c: char) -> int {
    c as u32 - 48
}

/// Whether every character of `s` is a decimal digit.
pub open spec fn all_digits(s: Seq<char>) -> bool {
    forall|i: int| 0 <= i < s.len() ==> is_digit(#[trigger] s[i])
}

/// The value of a string of decimal digits.
pub open spec fn digits_val(s: Seq<char>) -> int
    decreases s.len(),
{
    if s.len() == 0 {
        0
    } else {
        digits_val(s.drop_last()) * 10 + digit_val(s.last())
    }
}

proof fn lemma_digits_val_nonneg(s: Seq<char>)
    requires
        all_digits(s),
    ensures
        digits_val(s) >= 0,
    decreases s.len(),
{
    if s.len() > 0 {
        assert(all_digits(s.drop_last()));
        lemma_digits_val_nonneg(s.drop_last());
    }
}

/// Whether `s` is a run of one or more digits.
pub open spec fn is_uint_string(s: Seq<char>) -> bool {
    s.len() > 0 && all_digits(s)
}

/// Whether `s` is an optionally signed run of one or more digits: the
/// grammar of `i32::from_str`.
pub open spec fn is_int_string(s: Seq<char>) -> bool {
    s.len() > 0 && if s[0] == '+' || s[0] == '-' {
        is_uint_string(s.skip(1))
    } else {
        is_uint_string(s)
    }
}

/// The signed value of an integer string.
pub open spec fn int_string_val(s: Seq<char>) -> int {
    if s.len() > 0 && s[0] == '-' {
        -digits_val(s.skip(1))
    } else if s.len() > 0 && s[0] == '+' {
        digits_val(s.skip(1))
    } else {
        digits_val(s)
    }
}

/// What `str::parse::<i32>` returns on `s`: its value, if `s` is an
/// optionally signed digit run whose value fits in an `i32`.
pub open spec fn parse_i32_spec(s: Seq<char>) -> Option<i32> {
    if is_int_string(s) && -0x8000_0000 <= int_string_val(s) <= 0x7fff_ffff {
        Some(int_string_val(s) as i32)
    } else {
        None
    }
}

/// What `str::parse::<u32>` returns on a run of digits: its value, if it
/// fits in a `u32`.
pub open spec fn parse_u32_spec(s: Seq<char>) -> Option<u32> {
    if is_uint_string(s) && digits_val(s) <= 0xffff_ffff {
        Some(digits_val(s) as u32)
    } else {
        None
    }
}

/// Whether `c` is a decimal digit.
pub(crate) fn digit_check(c: char) -> (r: bool)
    ensures
        r == is_digit(c),
{
    let u = c as u32;
    48 <= u && u <= 57
}

/// Whether `v[from..to]` is all digits.
fn check_digits(v: &Vec<char>, from: usize, to: usize) -> (r: bool)
    requires
        from <= to <= v@.len(),
    ensures
        r == all_digits(v@.subrange(from as int, to as int)),
{
    let ghost seg = v@.subrange(from as int, to as int);
    let mut i = from;
    while i < to
        invariant
            from <= i <= to <= v@.len(),
            seg == v@.subrange(from as int, to as int),
            forall|j: int| 0 <= j < i - from ==> is_digit(#[trigger] seg[j]),
        decreases to - i,
    {
        if !digit_check(v[i]) {
            proof {
                assert(seg[i - from] == v@[i as int]);
            }
            return false;
        }
        i = i + 1;
    }
    true
}

/// The value of the digit run `v[from..to]`, capped: the flag reports a
/// value beyond `u32::MAX`.
fn digits_value_capped(v: &Vec<char>, from: usize, to: usize) -> (r: (u64, bool))
    requires
        from <= to <= v@.len(),
        all_digits(v@.subrange(from as int, to as int)),
    ensures
        ({
            let m = digits_val(v@.subrange(from as int, to as int));
            &&& r.1 ==> m > 0xffff_ffff
            &&& !r.1 ==> r.0 as int == m && m <= 0xffff_ffff
        }),
{
    let ghost seg = v@.subrange(from as int, to as int);
    let mut acc: u64 = 0;
    let mut over = false;
    let mut i = from;
    proof {
        assert(seg.take(0) =~= Seq::<char>::empty());
    }
    while i < to
        invariant
            from <= i <= to <= v@.len(),
            seg == v@.subrange(from as int, to as int),
            all_digits(seg),
            over ==> digits_val(seg.take(i - from)) > 0xffff_ffff,
            !over ==> acc as int == digits_val(seg.take(i - from)) && acc <= 0xffff_ffff,
        decreases to - i,
    {
        let c = v[i];
        proof {
            assert(seg[i - from] == v@[i as int]);
            assert(is_digit(seg[i - from]));
        }
        let d: u64 = (c as u32) as u64 - 48;
        proof {
            assert(seg.take(i - from + 1).drop_last() =~= seg.take(i - from));
            assert(seg.take(i - from + 1).last() == seg[i - from]);
            if over {
                lemma_digits_val_nonneg(seg.take(i - from));
            }
        }
        if !over {
            let next = acc * 10 + d;
            if next > 0xffff_ffff {
                over = true;
            } else {
                acc = next;
            }
        }
        i = i + 1;
    }
    proof {
        assert(seg.take(to - from) =~= seg);
    }
    (acc, over)
}

/// Parses `v` as `str::parse::<i32>` does.
pub fn parse_i32_chars(v: &Vec<char>) -> (r: Option<i32>)
    ensures
        r == parse_i32_spec(v@),
{
    let n = v.len();
    if n == 0 {
        return None;
    }
    let c0 = v[0];
    let (neg, from): (bool, usize) = if c0 == '-' {
        (true, 1)
    } else if c0 == '+' {
        (false, 1)
    } else {
        (false, 0)
    };
    if from >= n {
        return None;
    }
    if !check_digits(v, from, n) {
        proof {
            if from == 1 {
                assert(v@.skip(1) =~= v@.subrange(1, n as int));
            } else {
                assert(v@ =~= v@.subrange(0, n as int));
            }
        }
        return None;
    }
    let (mag, over) = digits_value_capped(v, from, n);
    proof {
        if from == 1 {
            assert(v@.skip(1) =~= v@.subrange(1, n as int));
        } else {
            assert(v@ =~= v@.subrange(0, n as int));
        }
        lemma_digits_val_nonneg(v@.subrange(from as int, n as int));
    }
    if over {
        return None;
    }
    if neg {
        if mag > 0x8000_0000 {
            None
        } else {
            Some((-(mag as i64)) as i32)
        }
    } else {
        if mag > 0x7fff_ffff {
            None
        } else {
            Some(mag as i32)
        }
    }
}

/// Parses `v` as `str::parse::<u32>` does on unsigned digit runs.
pub fn parse_u32_chars(v: &Vec<char>) -> (r: Option<u32>)
    ensures
        r == parse_u32_spec(v@),
{
    let n = v.len();
    if n == 0 {
        return None;
    }
    if !check_digits(v, 0, n) {
        proof {
            assert(v@ =~= v@.subrange(0, n as int));
        }
        return None;
    }
    let (mag, over) = digits_value_capped(v, 0, n);
    proof {
        assert(v@ =~= v@.subrange(0, n as int));
    }
    if over {
        None
    } else {
        Some(mag as u32)
    }
}

// ---------------------------------------------------------------------------
// Booleans
// ---------------------------------------------------------------------------

/// The characters of the true literal.
pub open spec fn true_chars() -> Seq<char> {
    seq!['t', 'r', 'u', 'e']
}

/// The characters of the false literal.
pub open spec fn false_chars() -> Seq<char> {
    seq!['f', 'a', 'l', 's', 'e']
}

/// What `str::parse::<bool>` returns: only the exact words are accepted.
pub open spec fn parse_bool_spec(s: Seq<char>) -> Option<bool> {
    if s == true_chars() {
        Some(true)
    } else if s == false_chars() {
        Some(false)
    } else {
        None
    }
}

/// Parses `v` as `str::parse::<bool>` does.
pub fn parse_bool_chars(v: &Vec<char>) -> (r: Option<bool>)
    ensures
        r == parse_bool_spec(v@),
{
    if v.len() == 4 && v[0] == 't' && v[1] == 'r' && v[2] == 'u' && v[3] == 'e' {
        proof {
            assert(v@ =~= true_chars());
        }
        Some(true)
    } else if v.len() == 5 && v[0] == 'f' && v[1] == 'a' && v[2] == 'l' && v[3] == 's' && v[4]
        == 'e' {
        proof {
            assert(v@ =~= false_chars());
        }
        Some(false)
    } else {
        proof {
            if v@ == true_chars() {
                assert(v@.len() == 4 && v@[0] == 't' && v@[1] == 'r' && v@[2] == 'u' && v@[3]
                    == 'e');
            }
            if v@ == false_chars() {
                assert(v@.len() == 5 && v@[0] == 'f' && v@[1] == 'a' && v@[2] == 'l' && v@[3] == 's'
                    && v@[4] == 'e');
            }
        }
        None
    }
}

// ---------------------------------------------------------------------------
// Decimal-number syntax
// ---------------------------------------------------------------------------

/// First index in `s` at or after `from` holding `a` or `b`, or `s.len()`.
pub open spec fn find_either(s: Seq<char>, from: int, a: char, b: char) -> int
    decreases s.len() - from,
{
    if from < 0 || from >= s.len() {
        s.len() as int
    } else if s[from] == a || s[from] == b {
        from
    } else {
        find_either(s, from + 1, a, b)
    }
}

pub(crate) proof fn lemma_find_either(s: Seq<char>, from: int, a: char, b: char)
    requires
        0 <= from <= s.len(),
    ensures
        from <= find_either(s, from, a, b) <= s.len(),
        forall|j: int| from <= j < find_either(s, from, a, b) ==> s[j] != a && s[j] != b,
        find_either(s, from, a, b) < s.len() ==> s[find_either(s, from, a, b)] == a || s[
            find_either(s, from, a, b)
        ] == b,
    decreases s.len() - from,
{
    if from < s.len() && s[from] != a && s[from] != b {
        lemma_find_either(s, from + 1, a, b);
    }
}

pub(crate) fn find_either_exec(v: &Vec<char>, from: usize, a: char, b: char) -> (j: usize)
    requires
        from <= v@.len(),
    ensures
        j as int == find_either(v@, from as int, a, b),
{
    let n = v.len();
    let mut i = from;
    while i < n && v[i] != a && v[i] != b
        invariant
            from <= i <= n,
            n == v@.len(),
            find_either(v@, from as int, a, b) == find_either(v@, i as int, a, b),
        decreases n - i,
    {
        i = i + 1;
    }
    i
}

/// Case-insensitive match of `a` against the ASCII pair `lower`/`upper`.
pub open spec fn ci_is(a: char, lower: char, upper: char) -> bool {
    a == lower || a == upper
}

/// Whether `s` is the word `inf`, in any case.
pub open spec fn is_inf_word(s: Seq<char>) -> bool {
    s.len() == 3 && ci_is(s[0], 'i', 'I') && ci_is(s[1], 'n', 'N') && ci_is(s[2], 'f', 'F')
}

/// Whether `s` is the word `infinity`, in any case.
pub open spec fn is_infinity_word(s: Seq<char>) -> bool {
    s.len() == 8 && ci_is(s[0], 'i', 'I') && ci_is(s[1], 'n', 'N') && ci_is(s[2], 'f', 'F')
        && ci_is(s[3], 'i', 'I') && ci_is(s[4], 'n', 'N') && ci_is(s[5], 'i', 'I') && ci_is(
        s[6],
        't',
        'T',
    ) && ci_is(s[7], 'y', 'Y')
}

/// Whether `s` is the word `nan`, in any case.
pub open spec fn is_nan_word(s: Seq<char>) -> bool {
    s.len() == 3 && ci_is(s[0], 'n', 'N') && ci_is(s[1], 'a', 'A') && ci_is(s[2], 'n', 'N')
}

/// Whether `s` is an optionally signed run of digits, as an exponent wants.
pub open spec fn is_signed_digits(s: Seq<char>) -> bool {
    s.len() > 0 && if s[0] == '+' || s[0] == '-' {
        is_uint_string(s.skip(1))
    } else {
        all_digits(s)
    }
}

/// Whether `s` is an exponent part: an `e` marker with signed digits.
pub open spec fn is_exp_part(s: Seq<char>) -> bool {
    s.len() >= 2 && (s[0] == 'e' || s[0] == 'E') && is_signed_digits(s.skip(1))
}

/// Whether `s` is a mantissa: digits with at most one point, and at least
/// one digit.
pub open spec fn is_mantissa(s: Seq<char>) -> bool {
    let d = find_either(s, 0, '.', '.');
    if d >= s.len() {
        s.len() > 0 && all_digits(s)
    } else {
        all_digits(s.take(d)) && all_digits(s.skip(d + 1)) && (d > 0 || s.len() > d + 1)
    }
}

/// Whether `s` is a number: a mantissa with an optional exponent part.
pub open spec fn is_number_string(s: Seq<char>) -> bool {
    let e = find_either(s, 0, 'e', 'E');
    is_mantissa(s.take(e)) && (e >= s.len() || is_exp_part(s.skip(e)))
}

/// The grammar `f32::from_str` documents: an optional sign, then `inf`,
/// `infinity` or `nan` in any case, or a decimal number with an optional
/// exponent. Every such string parses to a float; overflow saturates and
/// never fails.
pub open spec fn is_float_string(s: Seq<char>) -> bool {
    s.len() > 0 && if s[0] == '+' || s[0] == '-' {
        is_float_body(s.skip(1))
    } else {
        is_float_body(s)
    }
}

/// The body of a float literal, after any sign.
pub open spec fn is_float_body(s: Seq<char>) -> bool {
    is_inf_word(s) || is_infinity_word(s) || is_nan_word(s) || is_number_string(s)
}

fn check_signed_digits(v: &Vec<char>, from: usize) -> (r: bool)
    requires
        from <= v@.len(),
    ensures
        r == is_signed_digits(v@.skip(from as int)),
{
    let ghost seg = v@.skip(from as int);
    let n = v.len();
    if from >= n {
        return false;
    }
    let c0 = v[from];
    proof {
        assert(seg[0] == v@[from as int]);
    }
    if c0 == '+' || c0 == '-' {
        if from + 1 >= n {
            proof {
                assert(seg.skip(1) =~= v@.subrange(from as int + 1, n as int));
            }
            return false;
        }
        let r = check_digits(v, from + 1, n);
        proof {
            assert(seg.skip(1) =~= v@.subrange(from as int + 1, n as int));
        }
        r
    } else {
        let r = check_digits(v, from, n);
        proof {
            assert(seg =~= v@.subrange(from as int, n as int));
        }
        r
    }
}

fn check_float_body(v: &Vec<char>, from: usize) -> (r: bool)
    requires
        from <= v@.len(),
    ensures
        r == is_float_body(v@.skip(from as int)),
{
    let ghost seg = v@.skip(from as int);
    let n = v.len();
    let len = n - from;
    proof {
        assert(seg.len() == len);
        assert(forall|j: int| 0 <= j < seg.len() ==> seg[j] == v@[from + j]);
    }
    // the inf, infinity and nan words, in any case
    if len == 3 {
        let a = v[from];
        let b = v[from + 1];
        let c = v[from + 2];
        if (a == 'i' || a == 'I') && (b == 'n' || b == 'N') && (c == 'f' || c == 'F') {
            return true;
        }
        if (a == 'n' || a == 'N') && (b == 'a' || b == 'A') && (c == 'n' || c == 'N') {
            return true;
        }
    }
    if len == 8 {
        let w0 = v[from];
        let w1 = v[from + 1];
        let w2 = v[from + 2];
        let w3 = v[from + 3];
        let w4 = v[from + 4];
        let w5 = v[from + 5];
        let w6 = v[from + 6];
        let w7 = v[from + 7];
        if (w0 == 'i' || w0 == 'I') && (w1 == 'n' || w1 == 'N') && (w2 == 'f' || w2 == 'F') && (w3
            == 'i' || w3 == 'I') && (w4 == 'n' || w4 == 'N') && (w5 == 'i' || w5 == 'I') && (w6
            == 't' || w6 == 'T') && (w7 == 'y' || w7 == 'Y') {
            return true;
        }
    }
    // a number: mantissa, optional exponent
    let e = find_either_exec(v, from, 'e', 'E');
    proof {
        lemma_find_either(v@, from as int, 'e', 'E');
        lemma_find_shift(v@, from as int, 'e', 'E');
    }
    let mantissa_ok = check_mantissa(v, from, e);
    let exp_ok = if e >= n {
        true
    } else {
        let sd = check_signed_digits(v, e + 1);
        proof {
            let es = seg.skip(e - from);
            assert(es[0] == v@[e as int]);
            assert(es.skip(1) =~= v@.skip(e as int + 1));
        }
        sd
    };
    mantissa_ok && exp_ok
}

proof fn lemma_find_shift(s: Seq<char>, from: int, a: char, b: char)
    requires
        0 <= from <= s.len(),
    ensures
        find_either(s.skip(from), 0, a, b) == find_either(s, from, a, b) - from,
    decreases s.len() - from,
{
    let t = s.skip(from);
    if from < s.len() {
        assert(t[0] == s[from]);
        if s[from] == a || s[from] == b {
        } else {
            lemma_find_shift(s, from + 1, a, b);
            assert(t.skip(1) =~= s.skip(from + 1));
            lemma_find_skip_one(t, a, b);
        }
    }
}

proof fn lemma_find_skip_one(t: Seq<char>, a: char, b: char)
    requires
        t.len() > 0,
        t[0] != a,
        t[0] != b,
    ensures
        find_either(t, 0, a, b) == find_either(t.skip(1), 0, a, b) + 1,
{
    lemma_find_off_by_one(t, 1, a, b);
}

proof fn lemma_find_off_by_one(t: Seq<char>, k: int, a: char, b: char)
    requires
        1 <= k <= t.len(),
    ensures
        find_either(t, k, a, b) == find_either(t.skip(1), k - 1, a, b) + 1,
    decreases t.len() - k,
{
    let u = t.skip(1);
    if k < t.len() {
        assert(u[k - 1] == t[k]);
        if t[k] == a || t[k] == b {
        } else {
            lemma_find_off_by_one(t, k + 1, a, b);
        }
    }
}

fn check_mantissa(v: &Vec<char>, from: usize, to: usize) -> (r: bool)
    requires
        from <= to <= v@.len(),
        to as int == find_either(v@, from as int, 'e', 'E'),
    ensures
        r == is_mantissa(v@.skip(from as int).take(to - from)),
{
    let ghost m = v@.skip(from as int).take(to - from);
    proof {
        assert(m.len() == to - from);
        assert(forall|j: int| 0 <= j < m.len() ==> m[j] == v@[from + j]);
    }
    let d = find_either_exec(v, from, '.', '.');
    proof {
        lemma_find_either(v@, from as int, '.', '.');
        lemma_dot_in_window(v@, from as int, to as int, m);
    }
    if d >= to {
        let r = from < to && check_digits(v, from, to);
        proof {
            assert(m =~= v@.subrange(from as int, to as int));
        }
        r
    } else {
        proof {
            assert(m[d - from] == v@[d as int]);
        }
        let head_ok = check_digits(v, from, d);
        let tail_ok = check_digits(v, d + 1, to);
        proof {
            assert(m.take(d - from) =~= v@.subrange(from as int, d as int));
            assert(m.skip(d - from + 1) =~= v@.subrange(d as int + 1, to as int));
        }
        head_ok && tail_ok && (d > from || to > d + 1)
    }
}

/// Relates the first dot of the window `m` to the first dot of `v` in
/// `[from, to)`.
proof fn lemma_dot_in_window(s: Seq<char>, from: int, to: int, m: Seq<char>)
    requires
        0 <= from <= to <= s.len(),
        m == s.skip(from).take(to - from),
    ensures
        ({
            let d = find_either(s, from, '.', '.');
            &&& d >= to ==> find_either(m, 0, '.', '.') == m.len()
            &&& d < to ==> find_either(m, 0, '.', '.') == d - from
        }),
{
    let d = find_either(s, from, '.', '.');
    lemma_find_either(s, from, '.', '.');
    lemma_find_window(m, s, from, to, 0);
}

proof fn lemma_find_window(m: Seq<char>, s: Seq<char>, from: int, to: int, k: int)
    requires
        0 <= from <= to <= s.len(),
        m == s.skip(from).take(to - from),
        0 <= k <= m.len(),
        forall|j: int| from <= j < from + k ==> s[j] != '.',
    ensures
        ({
            let d = find_either(s, from + k, '.', '.');
            &&& d >= to ==> find_either(m, k, '.', '.') == m.len()
            &&& d < to ==> find_either(m, k, '.', '.') == d - from
        }),
    decreases m.len() - k,
{
    if k < m.len() {
        assert(m[k] == s[from + k]);
        if s[from + k] == '.' {
        } else {
            lemma_find_window(m, s, from, to, k + 1);
        }
    } else {
        lemma_find_either(s, from + k, '.', '.');
    }
}

/// Whether `v` is a float literal under the documented grammar.
pub fn check_float_chars(v: &Vec<char>) -> (r: bool)
    ensures
        r == is_float_string(v@),
{
    let n = v.len();
    if n == 0 {
        return false;
    }
    let c0 = v[0];
    if c0 == '+' || c0 == '-' {
        check_float_body(v, 1)
    } else {
        let r = check_float_body(v, 0);
        proof {
            assert(v@.skip(0) =~= v@);
        }
        r
    }
}

// ---------------------------------------------------------------------------
// Comma-separated lists
// ---------------------------------------------------------------------------

/// First index of a comma at or after `from`, or `s.len()`.
pub open spec fn find_comma(s: Seq<char>, from: int) -> int {
    find_either(s, from, ',', ',')
}

/// The integers among the comma-separated segments of `s`, each segment
/// trimmed; segments that do not parse are skipped.
pub open spec fn parsed_i32_list(s: Seq<char>) -> Seq<i32>
    decreases s.len(),
    via parsed_i32_list_decreases
{
    let c = find_comma(s, 0);
    let head = match parse_i32_spec(trimmed(s.take(c))) {
        Some(x) => seq![x],
        None => Seq::empty(),
    };
    if c >= s.len() {
        head
    } else {
        head + parsed_i32_list(s.skip(c + 1))
    }
}

#[via_fn]
proof fn parsed_i32_list_decreases(s: Seq<char>) {
    lemma_find_either(s, 0, ',', ',');
}

/// The float lexemes among the comma-separated segments of `s`, each
/// segment trimmed; segments that do not parse are skipped.
pub open spec fn parsed_float_list(s: Seq<char>) -> Seq<Seq<char>>
    decreases s.len(),
    via parsed_float_list_decreases
{
    let c = find_comma(s, 0);
    let seg = trimmed(s.take(c));
    let head: Seq<Seq<char>> = if is_float_string(seg) {
        seq![seg]
    } else {
        Seq::empty()
    };
    if c >= s.len() {
        head
    } else {
        head + parsed_float_list(s.skip(c + 1))
    }
}

#[via_fn]
proof fn parsed_float_list_decreases(s: Seq<char>) {
    lemma_find_either(s, 0, ',', ',');
}

/// Collects the integers of the comma-separated segments of `v[from..]`.
pub fn collect_i32_list(v: &Vec<char>, from: usize) -> (r: Vec<i32>)
    requires
        from <= v@.len(),
    ensures
        r@ == parsed_i32_list(v@.skip(from as int)),
    decreases v@.len() - from,
{
    let ghost s = v@.skip(from as int);
    let n = v.len();
    let c = find_either_exec(v, from, ',', ',');
    proof {
        lemma_find_either(v@, from as int, ',', ',');
        lemma_find_shift(v@, from as int, ',', ',');
        assert(s.take(c - from) =~= v@.subrange(from as int, c as int));
    }
    let seg = crate::text::subrange_chars(v, from, c);
    let seg = trim_chars(&seg);
    let head = parse_i32_chars(&seg);
    let mut r: Vec<i32> = Vec::new();
    match head {
        Some(x) => {
            r.push(x);
        },
        None => {},
    }
    if c < n {
        let mut rest = collect_i32_list(v, c + 1);
        proof {
            assert(s.skip(c - from + 1) =~= v@.skip(c as int + 1));
        }
        r.append(&mut rest);
    }
    proof {
        assert(r@ =~= parsed_i32_list(s));
    }
    r
}

/// Collects the float lexemes of the comma-separated segments of
/// `v[from..]`.
pub fn collect_float_list(v: &Vec<char>, from: usize) -> (r: Vec<Vec<char>>)
    requires
        from <= v@.len(),
    ensures
        r@.map_values(|x: Vec<char>| x@) == parsed_float_list(v@.skip(from as int)),
    decreases v@.len() - from,
{
    let ghost s = v@.skip(from as int);
    let n = v.len();
    let c = find_either_exec(v, from, ',', ',');
    proof {
        lemma_find_either(v@, from as int, ',', ',');
        lemma_find_shift(v@, from as int, ',', ',');
        assert(s.take(c - from) =~= v@.subrange(from as int, c as int));
    }
    let seg = crate::text::subrange_chars(v, from, c);
    let seg = trim_chars(&seg);
    let ok = check_float_chars(&seg);
    let mut r: Vec<Vec<char>> = Vec::new();
    if ok {
        r.push(seg);
    }
    if c < n {
        let mut rest = collect_float_list(v, c + 1);
        proof {
            assert(s.skip(c - from + 1) =~= v@.skip(c as int + 1));
        }
        r.append(&mut rest);
    }
    proof {
        assert(r@.map_values(|x: Vec<char>| x@) =~= parsed_float_list(s));
    }
    r
}

} // verus!
