//! Reading numbers and booleans written as text, as the standard library's
//! `FromStr` implementations for integers, `bool` and `f64` accept them.

use vstd::prelude::*;

verus! {

/// `c` is one of `'0'..='9'`.
pub open spec fn is_digit(c: char) -> bool {
    '0' <= c <= '9'
}

/// Every character of `d` is a decimal digit.
pub open spec fn all_digits(d: Seq<char>) -> bool {
    forall|i: int| 0 <= i < d.len() ==> is_digit(#[trigger] d[i])
}

/// The value of the decimal digits `d`.
pub open spec fn digits_value(d: Seq<char>) -> int
    decreases d.len(),
{
    if d.len() == 0 {
        0
    } else {
        digits_value(d.drop_last()) * 10 + (d.last() as int - '0' as int)
    }
}

/// The value of an integer written in decimal, as `FromStr` for the integer
/// types reads it: an optional `'+'` (or `'-'` where `signed`), then one or
/// more decimal digits, and nothing else.
pub open spec fn integer_text_value(s: Seq<char>, signed: bool) -> Option<int> {
    if s.len() == 0 {
        None
    } else if (s[0] == '+' || s[0] == '-') && s.len() == 1 {
        None
    } else if s[0] == '+' {
        if all_digits(s.drop_first()) {
            Some(digits_value(s.drop_first()))
        } else {
            None
        }
    } else if s[0] == '-' && signed {
        if all_digits(s.drop_first()) {
            Some(-digits_value(s.drop_first()))
        } else {
            None
        }
    } else if all_digits(s) {
        Some(digits_value(s))
    } else {
        None
    }
}

/// Every integer type's values lie strictly between `-LIMIT` and `LIMIT`.
pub open spec fn limit() -> int {
    0x1_0000_0000_0000_0000
}

/// `x` held to the interval `[-limit(), limit()]`.
pub open spec fn clamped(x: int) -> int {
    if x > limit() {
        limit()
    } else if x < -limit() {
        -limit()
    } else {
        x
    }
}

proof fn lemma_digits_value_nonneg(d: Seq<char>)
    requires
        all_digits(d),
    ensures
        digits_value(d) >= 0,
    decreases d.len(),
{
    if d.len() > 0 {
        lemma_digits_value_nonneg(d.drop_last());
    }
}

/// Reads the digits `s[from..]`, keeping the value below `limit()`.
fn read_digits(s: &Vec<char>, from: usize) -> (r: Option<u128>)
    requires
        from <= s@.len(),
    ensures
        match r {
            Some(v) => all_digits(s@.skip(from as int)) && v == clamped(
                digits_value(s@.skip(from as int)),
            ),
            None => !all_digits(s@.skip(from as int)),
        },
{
    let mut acc: u128 = 0;
    let mut i: usize = from;
    assert(s@.subrange(from as int, from as int) =~= Seq::<char>::empty());
    while i < s.len()
        invariant
            from <= i <= s@.len(),
            all_digits(s@.subrange(from as int, i as int)),
            acc == clamped(digits_value(s@.subrange(from as int, i as int))),
            acc <= limit(),
        decreases s@.len() - i,
    {
        let c = s[i];
        let ghost d = s@.subrange(from as int, i as int);
        let ghost e = s@.subrange(from as int, i + 1);
        assert(e.drop_last() =~= d);
        if !('0' <= c && c <= '9') {
            assert(s@.skip(from as int)[i - from] == c);
            return None;
        }
        proof {
            lemma_digits_value_nonneg(d);
            assert(all_digits(e)) by {
                assert forall|k: int| 0 <= k < e.len() implies is_digit(#[trigger] e[k]) by {
                    if k < d.len() {
                        assert(e[k] == d[k]);
                    }
                }
            }
        }
        let digit = (c as u32 - '0' as u32) as u128;
        let next = acc * 10 + digit;
        acc = if next > 0x1_0000_0000_0000_0000u128 {
            0x1_0000_0000_0000_0000u128
        } else {
            next
        };
        i = i + 1;
    }
    assert(s@.subrange(from as int, s@.len() as int) =~= s@.skip(from as int));
    Some(acc)
}

/// Reads an integer written in decimal; the value comes back held to
/// `[-limit(), limit()]`, which every integer type's range lies inside.
pub fn integer_text(s: &Vec<char>, signed: bool) -> (r: Option<i128>)
    ensures
        match r {
            Some(v) => integer_text_value(s@, signed) is Some && v == clamped(
                integer_text_value(s@, signed).unwrap(),
            ),
            None => integer_text_value(s@, signed) is None,
        },
{
    if s.len() == 0 {
        return None;
    }
    let first = s[0];
    if (first == '+' || first == '-') && s.len() == 1 {
        return None;
    }
    assert(s@.skip(1) =~= s@.drop_first());
    assert(s@.skip(0) =~= s@);
    if first == '+' {
        match read_digits(s, 1) {
            Some(v) => Some(v as i128),
            None => None,
        }
    } else if first == '-' && signed {
        match read_digits(s, 1) {
            Some(v) => {
                proof {
                    lemma_digits_value_nonneg(s@.drop_first());
                }
                Some(-(v as i128))
            },
            None => None,
        }
    } else {
        match read_digits(s, 0) {
            Some(v) => Some(v as i128),
            None => None,
        }
    }
}

/// Two character sequences are equal.
pub fn chars_equal(a: &Vec<char>, b: &Vec<char>) -> (r: bool)
    ensures
        r == (a@ == b@),
{
    if a.len() != b.len() {
        return false;
    }
    let mut i: usize = 0;
    while i < a.len()
        invariant
            a@.len() == b@.len(),
            i <= a@.len(),
            forall|k: int| 0 <= k < i ==> a@[k] == b@[k],
        decreases a@.len() - i,
    {
        if a[i] != b[i] {
            return false;
        }
        i = i + 1;
    }
    assert(a@ =~= b@);
    true
}

/// The value of a boolean written as text (`FromStr` for `bool`): exactly
/// `true` or `false`.
pub open spec fn bool_text_value(s: Seq<char>) -> Option<bool> {
    if s == "true"@ {
        Some(true)
    } else if s == "false"@ {
        Some(false)
    } else {
        None
    }
}

/// Reads a boolean written as text.
pub fn bool_text(s: &Vec<char>) -> (r: Option<bool>)
    ensures
        r == bool_text_value(s@),
{
    let t = crate::text::chars_of("true");
    let f = crate::text::chars_of("false");
    if chars_equal(s, &t) {
        Some(true)
    } else if chars_equal(s, &f) {
        Some(false)
    } else {
        None
    }
}

/// `c` with an ASCII uppercase letter turned into lowercase.
pub open spec fn ascii_lower(c: char) -> char {
    if 'A' <= c <= 'Z' {
        ((c as u32) + 32) as char
    } else {
        c
    }
}

/// `s` with its ASCII uppercase letters turned into lowercase.
pub open spec fn ascii_lowered(s: Seq<char>) -> Seq<char> {
    s.map_values(|c: char| ascii_lower(c))
}

/// The number of decimal digits at the start of `s`.
pub open spec fn leading_digits(s: Seq<char>) -> nat
    decreases s.len(),
{
    if s.len() > 0 && is_digit(s[0]) {
        1 + leading_digits(s.drop_first())
    } else {
        0
    }
}

/// `s` drops one leading `'+'` or `'-'`, where there is one.
pub open spec fn without_sign(s: Seq<char>) -> Seq<char> {
    if s.len() > 0 && (s[0] == '+' || s[0] == '-') {
        s.drop_first()
    } else {
        s
    }
}

/// `Exp ::= 'e' Sign? Digit+`, or nothing at all.
pub open spec fn exponent_ok(s: Seq<char>) -> bool {
    s.len() == 0 || (ascii_lower(s[0]) == 'e' && without_sign(s.drop_first()).len() > 0
        && all_digits(without_sign(s.drop_first())))
}

/// `Number ::= ( Digit+ | Digit+ '.' Digit* | Digit* '.' Digit+ ) Exp?`
pub open spec fn decimal_ok(s: Seq<char>) -> bool {
    let i = leading_digits(s);
    let after = s.skip(i as int);
    if after.len() > 0 && after[0] == '.' {
        let f = leading_digits(after.drop_first());
        (i > 0 || f > 0) && exponent_ok(after.drop_first().skip(f as int))
    } else {
        i > 0 && exponent_ok(after)
    }
}

/// Text that `FromStr` for `f64` accepts: `Sign? ( 'inf' | 'infinity' |
/// 'nan' | Number )`, letters in either case.
pub open spec fn float_text_ok(s: Seq<char>) -> bool {
    let b = without_sign(s);
    let l = ascii_lowered(b);
    ||| l == "inf"@
    ||| l == "infinity"@
    ||| l == "nan"@
    ||| decimal_ok(b)
}

fn lower_char(c: char) -> (r: char)
    ensures
        r == ascii_lower(c),
{
    if 'A' <= c && c <= 'Z' {
        let b = c as u8;
        assert(b as u32 == c as u32);
        (b + 32) as char
    } else {
        c
    }
}

/// The number of decimal digits in `s` from `from` on.
fn count_digits(s: &Vec<char>, from: usize) -> (r: usize)
    requires
        from <= s@.len(),
    ensures
        r == leading_digits(s@.skip(from as int)),
        from + r <= s@.len(),
        all_digits(s@.subrange(from as int, from + r)),
{
    let mut i: usize = from;
    while i < s.len() && '0' <= s[i] && s[i] <= '9'
        invariant
            from <= i <= s@.len(),
            leading_digits(s@.skip(from as int)) == (i - from) + leading_digits(s@.skip(i as int)),
            all_digits(s@.subrange(from as int, i as int)),
        decreases s@.len() - i,
    {
        assert(s@.skip(i as int).drop_first() =~= s@.skip(i + 1));
        assert(s@.subrange(from as int, i + 1).drop_last() =~= s@.subrange(from as int, i as int));
        i = i + 1;
    }
    i - from
}

fn exponent_check(s: &Vec<char>, from: usize) -> (r: bool)
    requires
        from <= s@.len(),
    ensures
        r == exponent_ok(s@.skip(from as int)),
{
    let n = s.len();
    if from == n {
        return true;
    }
    if lower_char(s[from]) != 'e' {
        return false;
    }
    let mut k = from + 1;
    assert(s@.skip(from as int).drop_first() =~= s@.skip(from + 1));
    if k < n && (s[k] == '+' || s[k] == '-') {
        k = k + 1;
    }
    assert(without_sign(s@.skip(from + 1)) =~= s@.skip(k as int));
    if k == n {
        return false;
    }
    let d = count_digits(s, k);
    assert(s@.subrange(k as int, (k + d) as int) =~= s@.skip(k as int) ==> k + d == n);
    if k + d == n {
        assert(s@.subrange(k as int, n as int) =~= s@.skip(k as int));
        true
    } else {
        assert(!is_digit(s@.skip(k as int)[d as int])) by {
            reveal_with_fuel(leading_digits, 2);
            lemma_leading_digits_stop(s@.skip(k as int));
        }
        false
    }
}

proof fn lemma_leading_digits_stop(s: Seq<char>)
    ensures
        leading_digits(s) <= s.len(),
        leading_digits(s) < s.len() ==> !is_digit(s[leading_digits(s) as int]),
        forall|k: int| 0 <= k < leading_digits(s) ==> is_digit(#[trigger] s[k]),
    decreases s.len(),
{
    if s.len() > 0 && is_digit(s[0]) {
        lemma_leading_digits_stop(s.drop_first());
        assert forall|k: int| 0 <= k < leading_digits(s) implies is_digit(#[trigger] s[k]) by {
            if k > 0 {
                assert(s[k] == s.drop_first()[k - 1]);
            }
        }
    }
}

fn lowered_equals(s: &Vec<char>, from: usize, word: &str) -> (r: bool)
    requires
        from <= s@.len(),
    ensures
        r == (ascii_lowered(s@.skip(from as int)) == word@),
{
    let w = crate::text::chars_of(word);
    let n = s.len();
    let ghost low = ascii_lowered(s@.skip(from as int));
    if n - from != w.len() {
        assert(low.len() != w@.len());
        return false;
    }
    let mut i: usize = 0;
    while i < w.len()
        invariant
            from <= s@.len(),
            n == s@.len(),
            n - from == w@.len(),
            low == ascii_lowered(s@.skip(from as int)),
            w@ == word@,
            i <= w@.len(),
            forall|k: int| 0 <= k < i ==> low[k] == w@[k],
        decreases w@.len() - i,
    {
        if lower_char(s[from + i]) != w[i] {
            assert(low[i as int] != w@[i as int]);
            return false;
        }
        i = i + 1;
    }
    assert(low =~= w@);
    true
}

/// The text is accepted by `FromStr` for `f64`.
pub fn float_text(s: &Vec<char>) -> (r: bool)
    ensures
        r == float_text_ok(s@),
{
    let n = s.len();
    let start: usize = if n > 0 && (s[0] == '+' || s[0] == '-') {
        1
    } else {
        0
    };
    let ghost b = without_sign(s@);
    assert(b =~= s@.skip(start as int));
    if lowered_equals(s, start, "inf") || lowered_equals(s, start, "infinity") || lowered_equals(
        s,
        start,
        "nan",
    ) {
        return true;
    }
    let i = count_digits(s, start);
    let p = start + i;
    assert(b.skip(i as int) =~= s@.skip(p as int));
    if p < n && s[p] == '.' {
        assert(s@.skip(p as int).drop_first() =~= s@.skip(p + 1));
        let f = count_digits(s, p + 1);
        assert(s@.skip(p + 1).skip(f as int) =~= s@.skip(p + 1 + f));
        (i > 0 || f > 0) && exponent_check(s, p + 1 + f)
    } else {
        i > 0 && exponent_check(s, p)
    }
}

} // verus!
