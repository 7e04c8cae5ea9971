//! Decimal number recognition and conversion, following the rules that
//! std's `FromStr` implementations for integers and floats document.

use vstd::prelude::*;

verus! {

pub open spec fn is_digit(c: char) -> bool {
    '0' <= c && c <= '9'
}

pub open spec fn all_digits(s: Seq<char>) -> bool {
    forall|i: int| 0 <= i < s.len() ==> is_digit(#[trigger] s[i])
}

pub open spec fn digit_value(c: char) -> nat {
    (c as int - '0' as int) as nat
}

/// The value of a run of decimal digits, most significant first.
pub open spec fn decimal_value(s: Seq<char>) -> nat
    decreases s.len(),
{
    if s.len() == 0 {
        0
    } else {
        decimal_value(s.drop_last()) * 10 + digit_value(s.last())
    }
}

/// The number of leading decimal digits of `s`.
pub open spec fn digit_prefix_len(s: Seq<char>) -> nat
    decreases s.len(),
{
    if s.len() > 0 && is_digit(s[0]) {
        1 + digit_prefix_len(s.drop_first())
    } else {
        0
    }
}

/// What std's `FromStr` for an unsigned integer type with largest value
/// `max` gives: an optional `+`, then at least one digit, within range.
pub open spec fn spec_parse_unsigned(s: Seq<char>, max: nat) -> Option<nat> {
    let body = if s.len() > 0 && s[0] == '+' { s.drop_first() } else { s };
    if body.len() > 0 && all_digits(body) && decimal_value(body) <= max {
        Some(decimal_value(body))
    } else {
        None
    }
}

/// What std's `FromStr` for a signed integer type with largest value
/// `max_pos` (and smallest value `-max_pos - 1`) gives.
pub open spec fn spec_parse_signed(s: Seq<char>, max_pos: nat) -> Option<int> {
    let neg = s.len() > 0 && s[0] == '-';
    let body = if s.len() > 0 && (s[0] == '+' || s[0] == '-') { s.drop_first() } else { s };
    if body.len() > 0 && all_digits(body) && (if neg {
        decimal_value(body) <= max_pos + 1
    } else {
        decimal_value(body) <= max_pos
    }) {
        Some(if neg { -(decimal_value(body) as int) } else { decimal_value(body) as int })
    } else {
        None
    }
}

pub open spec fn ascii_lower_char(c: char) -> char {
    if 'A' <= c && c <= 'Z' { ((c as u32) + 32) as char } else { c }
}

/// ASCII lower-casing, as std's `to_ascii_lowercase` documents it.
pub open spec fn ascii_lower(s: Seq<char>) -> Seq<char> {
    s.map_values(|c: char| ascii_lower_char(c))
}

/// The exponent part of a float literal: `e` or `E`, an optional sign, digits.
pub open spec fn is_float_exponent(e: Seq<char>) -> bool {
    &&& e.len() > 0
    &&& (e[0] == 'e' || e[0] == 'E')
    &&& {
        let t = e.drop_first();
        let d = if t.len() > 0 && (t[0] == '+' || t[0] == '-') { t.drop_first() } else { t };
        d.len() > 0 && all_digits(d)
    }
}

/// The decimal number form of a float literal (without its sign):
/// `Digit+`, `Digit+ '.' Digit*` or `Digit* '.' Digit+`, then an optional exponent.
pub open spec fn is_float_number(b: Seq<char>) -> bool {
    let i = digit_prefix_len(b);
    let rest = b.skip(i as int);
    if rest.len() > 0 && rest[0] == '.' {
        let frac = rest.drop_first();
        let j = digit_prefix_len(frac);
        let e = frac.skip(j as int);
        i + j >= 1 && (e.len() == 0 || is_float_exponent(e))
    } else {
        i >= 1 && (rest.len() == 0 || is_float_exponent(rest))
    }
}

/// The grammar that std's `FromStr` for `f32` accepts: an optional sign, then
/// `inf`, `infinity`, `nan` (in any case) or a decimal number.
pub open spec fn is_float_text(s: Seq<char>) -> bool {
    let b = if s.len() > 0 && (s[0] == '+' || s[0] == '-') { s.drop_first() } else { s };
    ascii_lower(b) == seq!['i', 'n', 'f']
        || ascii_lower(b) == seq!['i', 'n', 'f', 'i', 'n', 'i', 't', 'y']
        || ascii_lower(b) == seq!['n', 'a', 'n']
        || is_float_number(b)
}

pub proof fn lemma_digit_prefix_len_bound(s: Seq<char>)
    ensures
        digit_prefix_len(s) <= s.len(),
        all_digits(s.take(digit_prefix_len(s) as int)),
        digit_prefix_len(s) < s.len() ==> !is_digit(s[digit_prefix_len(s) as int]),
    decreases s.len(),
{
    if s.len() > 0 && is_digit(s[0]) {
        lemma_digit_prefix_len_bound(s.drop_first());
        assert forall|i: int| 0 <= i < digit_prefix_len(s) implies is_digit(
            #[trigger] s.take(digit_prefix_len(s) as int)[i],
        ) by {
            if i > 0 {
                assert(s.take(digit_prefix_len(s) as int)[i] == s.drop_first().take(
                    digit_prefix_len(s.drop_first()) as int,
                )[i - 1]);
            }
        }
        if digit_prefix_len(s) < s.len() {
            assert(s[digit_prefix_len(s) as int] == s.drop_first()[digit_prefix_len(
                s.drop_first(),
            ) as int]);
        }
    }
}

/// The number of leading digits of `cs[from..]`.
pub fn digit_run_len(cs: &Vec<char>, from: usize) -> (n: usize)
    requires
        from <= cs.len(),
    ensures
        n == digit_prefix_len(cs@.skip(from as int)),
        from + n <= cs.len(),
{
    let mut i = from;
    while i < cs.len() && '0' <= cs[i] && cs[i] <= '9'
        invariant
            from <= i <= cs.len(),
            digit_prefix_len(cs@.skip(from as int)) == (i - from) + digit_prefix_len(
                cs@.skip(i as int),
            ),
        decreases cs.len() - i,
    {
        assert(cs@.skip(i as int).drop_first() == cs@.skip(i + 1));
        i += 1;
    }
    i - from
}

proof fn lemma_decimal_value_mono(s: Seq<char>, i: int)
    requires
        0 <= i <= s.len(),
    ensures
        decimal_value(s.take(i)) <= decimal_value(s),
    decreases s.len() - i,
{
    if i < s.len() {
        lemma_decimal_value_mono(s, i + 1);
        assert(s.take(i + 1).drop_last() == s.take(i));
    } else {
        assert(s.take(i) == s);
    }
}

/// The value of the digits `cs[from..to]` when it does not exceed `bound`.
pub fn decimal_bounded(cs: &Vec<char>, from: usize, to: usize, bound: u64) -> (r: Option<u64>)
    requires
        from <= to <= cs.len(),
        all_digits(cs@.subrange(from as int, to as int)),
    ensures
        r matches Some(v) ==> v == decimal_value(cs@.subrange(from as int, to as int)),
        r is Some <==> decimal_value(cs@.subrange(from as int, to as int)) <= bound,
{
    let ghost s = cs@.subrange(from as int, to as int);
    let mut v: u128 = 0;
    let mut i = from;
    while i < to
        invariant
            from <= i <= to <= cs.len(),
            s == cs@.subrange(from as int, to as int),
            all_digits(s),
            v == decimal_value(s.take(i - from)),
            v <= bound,
        decreases to - i,
    {
        assert(is_digit(s[i - from]));
        let d = (cs[i] as u32 - '0' as u32) as u128;
        assert(s.take(i - from + 1).drop_last() == s.take(i - from));
        assert(s.take(i - from + 1).last() == cs@[i as int]);
        v = v * 10 + d;
        i += 1;
        if v > bound as u128 {
            proof {
                lemma_decimal_value_mono(s, i - from);
            }
            return None;
        }
    }
    assert(s.take(i - from) == s);
    Some(v as u64)
}

/// std's unsigned integer `FromStr` for a type whose largest value is `max`.
pub fn parse_unsigned(cs: &Vec<char>, max: u64) -> (r: Option<u64>)
    ensures
        r matches Some(v) ==> spec_parse_unsigned(cs@, max as nat) == Some(v as nat),
        r is None ==> spec_parse_unsigned(cs@, max as nat) is None,
{
    let start: usize = if cs.len() > 0 && cs[0] == '+' { 1 } else { 0 };
    proof {
        if start == 1 {
            assert(cs@.subrange(1, cs.len() as int) == cs@.drop_first());
        } else {
            assert(cs@.subrange(0, cs.len() as int) == cs@);
        }
    }
    if start >= cs.len() {
        return None;
    }
    let n = digit_run_len(cs, start);
    proof {
        lemma_digit_prefix_len_bound(cs@.skip(start as int));
        assert(cs@.skip(start as int) == cs@.subrange(start as int, cs.len() as int));
    }
    if start + n != cs.len() {
        return None;
    }
    assert(cs@.skip(start as int).take(n as int) == cs@.subrange(start as int, cs.len() as int));
    decimal_bounded(cs, start, cs.len(), max)
}

/// std's signed integer `FromStr` for a type whose largest value is `max_pos`.
pub fn parse_signed(cs: &Vec<char>, max_pos: u64) -> (r: Option<i64>)
    requires
        max_pos < 0x4000_0000_0000_0000,
    ensures
        r matches Some(v) ==> spec_parse_signed(cs@, max_pos as nat) == Some(v as int),
        r is None ==> spec_parse_signed(cs@, max_pos as nat) is None,
{
    let neg = cs.len() > 0 && cs[0] == '-';
    let start: usize = if cs.len() > 0 && (cs[0] == '+' || cs[0] == '-') { 1 } else { 0 };
    proof {
        if start == 1 {
            assert(cs@.subrange(1, cs.len() as int) == cs@.drop_first());
        } else {
            assert(cs@.subrange(0, cs.len() as int) == cs@);
        }
    }
    if start >= cs.len() {
        return None;
    }
    let n = digit_run_len(cs, start);
    proof {
        lemma_digit_prefix_len_bound(cs@.skip(start as int));
        assert(cs@.skip(start as int) == cs@.subrange(start as int, cs.len() as int));
    }
    if start + n != cs.len() {
        return None;
    }
    assert(cs@.skip(start as int).take(n as int) == cs@.subrange(start as int, cs.len() as int));
    let bound = if neg { max_pos + 1 } else { max_pos };
    match decimal_bounded(cs, start, cs.len(), bound) {
        Some(v) => {
            if neg {
                Some(-(v as i64))
            } else {
                Some(v as i64)
            }
        },
        None => None,
    }
}

/// std's `u8::from_str`.
pub fn parse_u8(cs: &Vec<char>) -> (r: Option<u8>)
    ensures
        r matches Some(v) ==> spec_parse_unsigned(cs@, 255) == Some(v as nat),
        r is None ==> spec_parse_unsigned(cs@, 255) is None,
{
    match parse_unsigned(cs, 255) {
        Some(v) => Some(v as u8),
        None => None,
    }
}

/// std's `u32::from_str`.
pub fn parse_u32(cs: &Vec<char>) -> (r: Option<u32>)
    ensures
        r matches Some(v) ==> spec_parse_unsigned(cs@, u32::MAX as nat) == Some(v as nat),
        r is None ==> spec_parse_unsigned(cs@, u32::MAX as nat) is None,
{
    match parse_unsigned(cs, 0xFFFF_FFFF) {
        Some(v) => Some(v as u32),
        None => None,
    }
}

/// std's `usize::from_str`.
pub fn parse_usize(cs: &Vec<char>) -> (r: Option<usize>)
    ensures
        r matches Some(v) ==> spec_parse_unsigned(cs@, usize::MAX as nat) == Some(v as nat),
        r is None ==> spec_parse_unsigned(cs@, usize::MAX as nat) is None,
{
    match parse_unsigned(cs, usize::MAX as u64) {
        Some(v) => Some(v as usize),
        None => None,
    }
}

/// std's `i32::from_str`.
pub fn parse_i32(cs: &Vec<char>) -> (r: Option<i32>)
    ensures
        r matches Some(v) ==> spec_parse_signed(cs@, i32::MAX as nat) == Some(v as int),
        r is None ==> spec_parse_signed(cs@, i32::MAX as nat) is None,
{
    match parse_signed(cs, 0x7FFF_FFFF) {
        Some(v) => Some(v as i32),
        None => None,
    }
}


pub proof fn lemma_all_digits_prefix_len(s: Seq<char>)
    requires
        all_digits(s),
    ensures
        digit_prefix_len(s) == s.len(),
    decreases s.len(),
{
    if s.len() > 0 {
        assert(is_digit(s[0]));
        assert forall|i: int| 0 <= i < s.drop_first().len() implies is_digit(
            #[trigger] s.drop_first()[i],
        ) by {
            assert(s.drop_first()[i] == s[i + 1]);
        }
        lemma_all_digits_prefix_len(s.drop_first());
    }
}

/// Whether `cs[from..]` consists of digits only.
pub fn all_digits_from(cs: &Vec<char>, from: usize) -> (r: bool)
    requires
        from <= cs.len(),
    ensures
        r == all_digits(cs@.skip(from as int)),
{
    let n = digit_run_len(cs, from);
    proof {
        lemma_digit_prefix_len_bound(cs@.skip(from as int));
        if all_digits(cs@.skip(from as int)) {
            lemma_all_digits_prefix_len(cs@.skip(from as int));
        }
        if from + n == cs.len() {
            assert(cs@.skip(from as int).take(n as int) == cs@.skip(from as int));
        }
    }
    from + n == cs.len()
}

/// Lower-cases one ASCII letter, leaving every other character as it is.
pub fn ascii_lower_of(c: char) -> (r: char)
    ensures
        r == ascii_lower_char(c),
{
    if 'A' <= c && c <= 'Z' {
        ((c as u8) + 32) as char
    } else {
        c
    }
}

/// Whether `cs[from..]`, ASCII lower-cased, equals `word`.
pub fn lower_equals(cs: &Vec<char>, from: usize, word: &Vec<char>) -> (r: bool)
    requires
        from <= cs.len(),
    ensures
        r == (ascii_lower(cs@.skip(from as int)) == word@),
{
    if cs.len() - from != word.len() {
        proof {
            assert(ascii_lower(cs@.skip(from as int)).len() != word@.len());
        }
        return false;
    }
    let mut i: usize = 0;
    while i < word.len()
        invariant
            cs.len() - from == word.len(),
            from <= cs.len(),
            i <= word.len(),
            forall|k: int| 0 <= k < i ==> ascii_lower_char(cs@[from + k]) == word@[k],
        decreases word.len() - i,
    {
        if ascii_lower_of(cs[from + i]) != word[i] {
            proof {
                assert(ascii_lower(cs@.skip(from as int))[i as int] != word@[i as int]);
            }
            return false;
        }
        i += 1;
    }
    proof {
        assert(ascii_lower(cs@.skip(from as int)) =~= word@);
    }
    true
}

/// Whether `cs[from..]` is the exponent part of a float literal.
pub fn float_exponent_at(cs: &Vec<char>, from: usize) -> (r: bool)
    requires
        from <= cs.len(),
    ensures
        r == is_float_exponent(cs@.skip(from as int)),
{
    if from >= cs.len() || !(cs[from] == 'e' || cs[from] == 'E') {
        return false;
    }
    let t = from + 1;
    assert(cs@.skip(from as int).drop_first() == cs@.skip(t as int));
    let d = if t < cs.len() && (cs[t] == '+' || cs[t] == '-') { t + 1 } else { t };
    assert(t < cs.len() ==> cs@.skip(t as int).drop_first() == cs@.skip(t + 1));
    d < cs.len() && all_digits_from(cs, d)
}

/// Whether `cs` is accepted by std's `f32::from_str`.
pub fn is_float_literal(cs: &Vec<char>) -> (r: bool)
    ensures
        r == is_float_text(cs@),
{
    let start: usize = if cs.len() > 0 && (cs[0] == '+' || cs[0] == '-') { 1 } else { 0 };
    let ghost b = cs@.skip(start as int);
    assert(start == 1 ==> cs@.drop_first() == b);
    assert(start == 0 ==> cs@ == b);
    let inf = vec!['i', 'n', 'f'];
    let infinity = vec!['i', 'n', 'f', 'i', 'n', 'i', 't', 'y'];
    let nan = vec!['n', 'a', 'n'];
    if lower_equals(cs, start, &inf) || lower_equals(cs, start, &infinity) || lower_equals(
        cs,
        start,
        &nan,
    ) {
        return true;
    }
    let i = digit_run_len(cs, start);
    let p = start + i;
    assert(b.skip(i as int) == cs@.skip(p as int));
    if p < cs.len() && cs[p] == '.' {
        assert(cs@.skip(p as int).drop_first() == cs@.skip(p + 1));
        let j = digit_run_len(cs, p + 1);
        let e = p + 1 + j;
        assert(cs@.skip(p + 1).skip(j as int) == cs@.skip(e as int));
        i + j >= 1 && (e == cs.len() || float_exponent_at(cs, e))
    } else {
        i >= 1 && (p == cs.len() || float_exponent_at(cs, p))
    }
}

/// The decimal digit character of `d`, for `d < 10`.
pub open spec fn digit_char(d: nat) -> char {
    if d == 0 { '0' } else if d == 1 { '1' } else if d == 2 { '2' } else if d == 3 { '3' }
    else if d == 4 { '4' } else if d == 5 { '5' } else if d == 6 { '6' } else if d == 7 { '7' }
    else if d == 8 { '8' } else { '9' }
}

/// The decimal text of `n`, as `Display` writes an unsigned integer.
pub open spec fn decimal_text(n: nat) -> Seq<char>
    decreases n,
{
    if n < 10 {
        seq![digit_char(n)]
    } else {
        decimal_text(n / 10).push(digit_char(n % 10))
    }
}

/// The decimal text of a signed number: a `-` before the digits of a
/// negative one, as `Display` writes a signed integer.
pub open spec fn signed_text(n: int) -> Seq<char> {
    if n < 0 {
        seq!['-'] + decimal_text((-n) as nat)
    } else {
        decimal_text(n as nat)
    }
}

proof fn lemma_digit_char_value(d: nat)
    requires
        d < 10,
    ensures
        is_digit(digit_char(d)),
        digit_value(digit_char(d)) == d,
{
}

/// The decimal text of `n` is a non-empty run of digits whose value is `n`.
pub proof fn lemma_decimal_text(n: nat)
    ensures
        decimal_text(n).len() > 0,
        all_digits(decimal_text(n)),
        decimal_value(decimal_text(n)) == n,
    decreases n,
{
    if n >= 10 {
        lemma_decimal_text(n / 10);
        let t = decimal_text(n / 10);
        let s = t.push(digit_char(n % 10));
        assert(s.drop_last() =~= t);
        assert forall|i: int| 0 <= i < s.len() implies is_digit(#[trigger] s[i]) by {
            if i < t.len() {
                assert(s[i] == t[i]);
            }
        }
        lemma_digit_char_value(n % 10);
        assert(n == (n / 10) * 10 + n % 10);
        assert(decimal_value(s) == decimal_value(t) * 10 + digit_value(digit_char(n % 10)));
    } else {
        let s = seq![digit_char(n)];
        assert(s.drop_last() =~= Seq::<char>::empty());
        lemma_digit_char_value(n);
        assert(decimal_value(s) == decimal_value(s.drop_last()) * 10 + digit_value(s.last()));
    }
}

/// Reading the decimal text of a number back, as std's `FromStr` for a
/// signed integer does, gives the number, for every number in range.
pub proof fn lemma_parse_signed_text(n: int, max_pos: nat)
    requires
        -(max_pos as int) - 1 <= n <= max_pos,
    ensures
        spec_parse_signed(signed_text(n), max_pos) == Some(n),
{
    if n < 0 {
        let d = decimal_text((-n) as nat);
        lemma_decimal_text((-n) as nat);
        assert((seq!['-'] + d).drop_first() =~= d);
    } else {
        let d = decimal_text(n as nat);
        lemma_decimal_text(n as nat);
        assert(is_digit(d[0]));
    }
}

/// Reading the decimal text of a number back, as std's `FromStr` for an
/// unsigned integer does, gives the number, for every number in range.
pub proof fn lemma_parse_unsigned_text(n: nat, max: nat)
    requires
        n <= max,
    ensures
        spec_parse_unsigned(decimal_text(n), max) == Some(n),
{
    lemma_decimal_text(n);
    assert(is_digit(decimal_text(n)[0]));
}

fn digit_char_of(d: usize) -> (c: char)
    requires
        d < 10,
    ensures
        c == digit_char(d as nat),
{
    if d == 0 { '0' } else if d == 1 { '1' } else if d == 2 { '2' } else if d == 3 { '3' }
    else if d == 4 { '4' } else if d == 5 { '5' } else if d == 6 { '6' } else if d == 7 { '7' }
    else if d == 8 { '8' } else { '9' }
}

/// Appends the decimal text of `n` to `s`.
pub fn push_decimal(s: &mut String, n: usize)
    ensures
        final(s)@ == old(s)@ + decimal_text(n as nat),
    decreases n,
{
    if n >= 10 {
        push_decimal(s, n / 10);
    }
    crate::text::push_char(s, digit_char_of(n % 10));
    assert(n < 10 ==> n % 10 == n);
}

} // verus!
