//! Text primitives: comparing, slicing, and reading and writing decimal integers.

use vstd::prelude::*;
use vstd::string::*;

verus! {

/// `String::push`: the text grows by that one character, at its end.
pub assume_specification[ String::push ](s: &mut String, ch: char)
    ensures
        final(s)@ == old(s)@.push(ch),
;

/// Whether two texts hold the same characters.
pub fn same_text(a: &str, b: &str) -> (same: bool)
    ensures
        same == (a@ == b@),
{
    let left: &[u8] = a.as_bytes();
    let right: &[u8] = b.as_bytes();
    proof {
        vstd::utf8::encode_utf8_decode_utf8(a@);
        vstd::utf8::encode_utf8_decode_utf8(b@);
    }
    if left.len() != right.len() {
        return false;
    }
    let mut i: usize = 0;
    while i < left.len()
        invariant
            left@ == a.spec_bytes(),
            right@ == b.spec_bytes(),
            left@.len() == right@.len(),
            i <= left@.len(),
            forall|k: int| 0 <= k < i ==> left@[k] == right@[k],
        decreases left@.len() - i,
    {
        if left[i] != right[i] {
            return false;
        }
        i = i + 1;
    }
    assert(left@ =~= right@);
    true
}

/// Whether `a` comes before `b`, character by character; a text comes before those that it begins.
pub open spec fn precedes(a: Seq<char>, b: Seq<char>) -> bool
    decreases a.len(),
{
    if a.len() == 0 || b.len() == 0 {
        a.len() < b.len()
    } else if a[0] != b[0] {
        a[0] < b[0]
    } else {
        precedes(a.skip(1), b.skip(1))
    }
}

/// The characters of a text, in order.
pub fn characters(text: &str) -> (chars: Vec<char>)
    ensures
        chars@ == text@,
{
    let mut chars: Vec<char> = Vec::new();
    for c in it: text.chars()
        invariant
            it.seq() == text@,
            chars@ == text@.take(it.index() as int),
    {
        chars.push(c);
        assert(text@.take(it.index() as int + 1) =~= text@.take(it.index() as int).push(c));
    }
    assert(text@.take(text@.len() as int) =~= text@);
    chars
}

/// The text made of `chars[from..to]`.
pub fn text_between(chars: &Vec<char>, from: usize, to: usize) -> (text: String)
    requires
        from <= to <= chars@.len(),
    ensures
        text@ == chars@.subrange(from as int, to as int),
{
    let mut text: String = String::new();
    let mut i: usize = from;
    while i < to
        invariant
            from <= i <= to <= chars@.len(),
            text@ == chars@.subrange(from as int, i as int),
        decreases to - i,
    {
        text.push(chars[i]);
        assert(chars@.subrange(from as int, i + 1) =~= chars@.subrange(from as int, i as int).push(chars@[i as int]));
        i = i + 1;
    }
    text
}

/// Whether `c` is one of `0` to `9`.
pub open spec fn is_digit(c: char) -> bool {
    '0' <= c && c <= '9'
}

/// Whether `s` is a non-empty run of decimal digits.
pub open spec fn is_digits(s: Seq<char>) -> bool {
    s.len() > 0 && forall|i: int| 0 <= i < s.len() ==> is_digit(#[trigger] s[i])
}

/// The number that a run of decimal digits writes.
pub open spec fn digits_value(s: Seq<char>) -> int
    decreases s.len(),
{
    if s.len() == 0 {
        0
    } else {
        10 * digits_value(s.drop_last()) + (s.last() as int - '0' as int)
    }
}

/// The integer that `s` writes: an optional `+` or `-`, then one or more decimal digits and nothing
/// else.
pub open spec fn integer_value(s: Seq<char>) -> Option<int> {
    if s.len() > 0 && s[0] == '-' {
        if is_digits(s.skip(1)) { Some(-digits_value(s.skip(1))) } else { None }
    } else if s.len() > 0 && s[0] == '+' {
        if is_digits(s.skip(1)) { Some(digits_value(s.skip(1))) } else { None }
    } else if is_digits(s) {
        Some(digits_value(s))
    } else {
        None
    }
}

/// The row id that `s` writes, if it writes an integer that fits in 64 signed bits.
pub open spec fn id_value(s: Seq<char>) -> Option<i64> {
    match integer_value(s) {
        Some(v) => if i64::MIN <= v <= i64::MAX { Some(v as i64) } else { None },
        None => None,
    }
}

/// Reads a row id out of a path segment.
pub fn parse_id(text: &str) -> (id: Option<i64>)
    ensures
        id == id_value(text@),
{
    let chars: Vec<char> = characters(text);
    if chars.len() == 0 {
        return None;
    }
    let negative: bool = chars[0] == '-';
    let start: usize = if negative || chars[0] == '+' { 1 } else { 0 };
    let ghost body = text@.skip(start as int);
    assert(start == 0 ==> body =~= text@);
    if chars.len() == start {
        return None;
    }
    let limit: u64 = 0x8000_0000_0000_0000;
    let mut magnitude: u64 = 0;
    let mut too_big: bool = false;
    let mut i: usize = start;
    assert(body.take(0) =~= Seq::<char>::empty());
    while i < chars.len()
        invariant
            chars@ == text@,
            start <= i <= chars@.len(),
            text@.len() > 0,
            start == if text@[0] == '-' || text@[0] == '+' { 1int } else { 0int },
            body == text@.skip(start as int),
            start == 0 ==> body == text@,
            limit == 0x8000_0000_0000_0000,
            forall|k: int| 0 <= k < i - start ==> is_digit(#[trigger] body[k]),
            too_big ==> digits_value(body.take(i - start)) > limit,
            !too_big ==> magnitude == digits_value(body.take(i - start)) && magnitude <= limit,
        decreases chars@.len() - i,
    {
        let c: char = chars[i];
        assert(body[i - start] == c);
        if !('0' <= c && c <= '9') {
            assert(!is_digit(body[i - start]) && !is_digits(body));
            return None;
        }
        let digit: u64 = c as u64 - '0' as u64;
        proof {
            let next = body.take(i - start + 1);
            assert(next.drop_last() =~= body.take(i - start));
            assert(next.last() == c);
            assert(digits_value(next) == 10 * digits_value(body.take(i - start)) + digit);
        }
        if !too_big {
            if magnitude > limit / 10 || magnitude * 10 + digit > limit {
                too_big = true;
            } else {
                magnitude = magnitude * 10 + digit;
            }
        }
        i = i + 1;
    }
    assert(body.take(body.len() as int) =~= body);
    assert(is_digits(body));
    if too_big {
        None
    } else if negative {
        if magnitude == limit {
            Some(i64::MIN)
        } else {
            Some(-(magnitude as i64))
        }
    } else if magnitude < limit {
        Some(magnitude as i64)
    } else {
        None
    }
}

/// The character that writes the digit `d`.
pub open spec fn digit_char(d: int) -> char {
    ('0' as int + d) as char
}

/// The decimal digits of a natural number, with no leading zero.
pub open spec fn nat_text(n: nat) -> Seq<char>
    decreases n,
{
    if n < 10 {
        seq![digit_char(n as int)]
    } else {
        nat_text(n / 10).push(digit_char((n % 10) as int))
    }
}

/// An integer in decimal: a `-` if it is negative, then the digits of its magnitude.
pub open spec fn decimal(n: int) -> Seq<char> {
    if n < 0 {
        seq!['-'] + nat_text((-n) as nat)
    } else {
        nat_text(n as nat)
    }
}

/// Appends the digits of `n`.
fn push_nat(out: &mut String, n: u64)
    ensures
        final(out)@ == old(out)@ + nat_text(n as nat),
    decreases n,
{
    if n >= 10 {
        push_nat(out, n / 10);
    }
    let digit: u8 = (n % 10) as u8;
    out.push((48 + digit) as char);
    assert(out@ =~= old(out)@ + nat_text(n as nat));
}

/// Appends `n` in decimal.
pub fn push_decimal(out: &mut String, n: i64)
    ensures
        final(out)@ == old(out)@ + decimal(n as int),
{
    if n < 0 {
        out.push('-');
        let magnitude: u64 = if n == i64::MIN { 0x8000_0000_0000_0000 } else { (-n) as u64 };
        push_nat(out, magnitude);
        assert(out@ =~= old(out)@ + decimal(n as int));
    } else {
        push_nat(out, n as u64);
    }
}

proof fn lemma_nat_text(n: nat)
    ensures
        is_digits(nat_text(n)),
        digits_value(nat_text(n)) == n,
    decreases n,
{
    if n < 10 {
        let s = nat_text(n);
        assert(s.drop_last() =~= Seq::<char>::empty());
        assert(s.last() as int - '0' as int == n);
        assert(digits_value(s.drop_last()) == 0);
    } else {
        lemma_nat_text(n / 10);
        let s = nat_text(n);
        assert(s.drop_last() =~= nat_text(n / 10));
        assert forall|i: int| 0 <= i < s.len() implies is_digit(#[trigger] s[i]) by {
            if i < s.len() - 1 {
                assert(s[i] == nat_text(n / 10)[i]);
            }
        }
    }
}

/// Reading back a row id gives the id that was written.
pub proof fn law_id_reads_back(id: i64)
    ensures
        id_value(decimal(id as int)) == Some(id),
{
    if id < 0 {
        lemma_nat_text((-id) as nat);
        assert(decimal(id as int).skip(1) =~= nat_text((-id) as nat));
    } else {
        lemma_nat_text(id as nat);
        assert(is_digit(nat_text(id as nat)[0]));
    }
}

/// One character writes an integer exactly where it is one of the ten digits, `0` for 0 up to `9` for
/// 9, and no character writes none.
pub proof fn law_digit_is_an_id(c: char)
    ensures
        id_value(seq![c]) == if 0x30 <= c as int <= 0x39 {
            Some((c as int - 0x30) as i64)
        } else {
            None
        },
        id_value(seq![]) is None,
{
    let s = seq![c];
    assert(s.drop_last() =~= Seq::<char>::empty());
    reveal_with_fuel(digits_value, 2);
    assert(s.skip(1) =~= Seq::<char>::empty());
    if is_digits(s) {
        assert(is_digit(s[0]));
    }
}

/// One more character after an integer makes ten times that integer and the digit, on the same side
/// of zero, if it is a digit, and no integer otherwise.
pub proof fn law_another_digit(s: Seq<char>, c: char)
    requires
        integer_value(s) is Some,
    ensures
        s.len() > 0,
        integer_value(s.push(c)) == if 0x30 <= c as int <= 0x39 {
            let digit = c as int - 0x30;
            Some(10 * integer_value(s)->0 + if s[0] == '-' { -digit } else { digit })
        } else {
            None
        },
{
    let longer = s.push(c);
    let start: int = if s[0] == '-' || s[0] == '+' { 1 } else { 0 };
    let body = s.skip(start);
    assert(s.skip(0) =~= s);
    assert(longer.skip(0) =~= longer);
    assert(longer.skip(start) =~= body.push(c));
    assert(body.push(c).drop_last() =~= body);
    assert forall|i: int| 0 <= i < body.len() implies #[trigger] body.push(c)[i] == body[i] by {}
    assert(body.push(c)[body.len() as int] == c);
    if 0x30 <= c as int <= 0x39 {
        assert(is_digits(body.push(c)));
    }
}

/// A sign before digits says on which side of zero the integer lies; a sign alone writes none, and a
/// second sign is none.
pub proof fn law_sign(s: Seq<char>)
    ensures
        s.len() > 0 && s[0] != '+' && s[0] != '-' ==> integer_value(seq!['+'] + s) == integer_value(
            s,
        ),
        s.len() > 0 && s[0] != '+' && s[0] != '-' ==> integer_value(seq!['-'] + s) == (
        match integer_value(s) {
            Some(value) => Some(-value),
            None => None,
        }),
        s.len() == 0 || s[0] == '+' || s[0] == '-' ==> integer_value(seq!['+'] + s) is None
            && integer_value(seq!['-'] + s) is None,
{
    assert((seq!['+'] + s).skip(1) =~= s);
    assert((seq!['-'] + s).skip(1) =~= s);
    if s.len() > 0 && is_digits(s) {
        assert(is_digit(s[0]));
    }
}

/// A text whose beginning writes no integer writes none itself, unless that beginning is but a sign.
pub proof fn law_no_id_begins_without_one(s: Seq<char>, c: char)
    requires
        integer_value(s) is None,
        s.len() > 1 || (s.len() == 1 && s[0] != '+' && s[0] != '-'),
    ensures
        integer_value(s.push(c)) is None,
{
    let longer = s.push(c);
    let start: int = if s[0] == '-' || s[0] == '+' { 1 } else { 0 };
    let body = s.skip(start);
    assert(s.skip(0) =~= s);
    assert(longer.skip(0) =~= longer);
    assert(longer.skip(start) =~= body.push(c));
    if is_digits(body.push(c)) {
        assert forall|i: int| 0 <= i < body.len() implies is_digit(#[trigger] body[i]) by {
            assert(body.push(c)[i] == body[i]);
        }
    }
}

/// An integer is a row id exactly where it lies between -2^63 and 2^63 - 1.
pub proof fn law_ids_are_the_integers_that_fit(s: Seq<char>)
    ensures
        id_value(s) is Some <==> integer_value(s) is Some && -9223372036854775808
            <= integer_value(s)->0 <= 9223372036854775807,
        id_value(s) is Some ==> id_value(s)->0 == integer_value(s)->0,
{
}

/// An integer in decimal has a `-` in front exactly where it is negative, then digits only, with no
/// zero in front of others, and reads back as itself.
pub proof fn law_decimal_is_plain(n: int)
    ensures
        ({
            let s = decimal(n);
            let digits = if n < 0 { s.skip(1) } else { s };
            &&& s.len() > 0
            &&& s[0] == '-' <==> n < 0
            &&& digits.len() > 0
            &&& forall|i: int|
                0 <= i < digits.len() ==> 0x30 <= #[trigger] digits[i] as int && digits[i] as int
                    <= 0x39
            &&& digits[0] == '0' ==> digits.len() == 1
            &&& integer_value(s) == Some(n)
        }),
{
    let size = (if n < 0 { -n } else { n }) as nat;
    lemma_nat_text(size);
    lemma_no_leading_zero(size);
    let digits = nat_text(size);
    assert forall|i: int| 0 <= i < digits.len() implies 0x30 <= #[trigger] digits[i] as int
        && digits[i] as int <= 0x39 by {
        assert(is_digit(digits[i]));
    }
    if n < 0 {
        assert(decimal(n).skip(1) =~= digits);
    }
}

proof fn lemma_no_leading_zero(n: nat)
    ensures
        nat_text(n).len() > 0,
        n > 0 ==> nat_text(n)[0] != '0',
        n == 0 ==> nat_text(n).len() == 1,
    decreases n,
{
    if n >= 10 {
        lemma_no_leading_zero(n / 10);
        assert(nat_text(n)[0] == nat_text(n / 10)[0]);
    }
}

} // verus!
