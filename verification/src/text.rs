//! Character-level helpers shared by the text-processing modules.
//!
//! Every piece of text in this crate is specified over its sequence of
//! characters (`Seq<char>`, the view of `str` and `String`). The executable
//! code works on `Vec<char>` buffers and turns a buffer back into a `String`
//! only at the very end.

use vstd::prelude::*;

verus! {

/// The characters of `s`, in order.
pub fn chars_of(s: &str) -> (v: Vec<char>)
    ensures
        v@ == s@,
{
    let mut v: Vec<char> = Vec::new();
    for c in it: s.chars()
        invariant
            v@ == it.seq().take(it.index() as int),
            it.seq() == s@,
    {
        v.push(c);
    }
    v
}

/// Collects characters into a `String` with `Iterator::collect`
/// (`String: FromIterator<&char>`). The contract claims that the string
/// holds exactly the given characters, in the given order.
#[verifier::external_body]
pub(crate) fn string_of(chars: &Vec<char>) -> (s: String)
    ensures
        s@ == chars@,
{
    chars.iter().collect()
}

/// Appends `src[from..to]` to `out`.
pub fn push_range(out: &mut Vec<char>, src: &Vec<char>, from: usize, to: usize)
    requires
        from <= to <= src.len(),
    ensures
        final(out)@ == old(out)@ + src@.subrange(from as int, to as int),
{
    let mut i: usize = from;
    while i < to
        invariant
            from <= i <= to <= src.len(),
            out@ == old(out)@ + src@.subrange(from as int, i as int),
        decreases to - i,
    {
        out.push(src[i]);
        i += 1;
    }
}

/// Appends all of `src` to `out`.
pub fn push_all(out: &mut Vec<char>, src: &Vec<char>)
    ensures
        final(out)@ == old(out)@ + src@,
{
    push_range(out, src, 0, src.len());
    assert(src@.subrange(0, src@.len() as int) == src@);
}

/// Appends the characters of `s` to `out`.
pub fn push_str(out: &mut Vec<char>, s: &str)
    ensures
        final(out)@ == old(out)@ + s@,
{
    let chars = chars_of(s);
    push_all(out, &chars);
}

/// Whether `pat` occurs in `s` starting at index `at`.
pub open spec fn occurs_at(s: Seq<char>, pat: Seq<char>, at: int) -> bool {
    &&& 0 <= at
    &&& at + pat.len() <= s.len()
    &&& s.subrange(at, at + pat.len()) == pat
}

/// Executable form of [`occurs_at`].
pub fn matches_at(s: &Vec<char>, pat: &Vec<char>, at: usize) -> (r: bool)
    ensures
        r == occurs_at(s@, pat@, at as int),
{
    if at > s.len() || pat.len() > s.len() - at {
        return false;
    }
    let mut k: usize = 0;
    while k < pat.len()
        invariant
            at + pat.len() <= s.len(),
            k <= pat.len(),
            forall|j: int| 0 <= j < k ==> s@[at + j] == pat@[j],
        decreases pat.len() - k,
    {
        if s[at + k] != pat[k] {
            assert(s@.subrange(at as int, at + pat.len())[k as int] != pat@[k as int]);
            return false;
        }
        k += 1;
    }
    assert(s@.subrange(at as int, at + pat.len()) =~= pat@);
    true
}

/// Whether two texts hold the same characters.
pub fn text_eq(a: &str, b: &str) -> (r: bool)
    ensures
        r == (a@ == b@),
{
    let left = chars_of(a);
    let right = chars_of(b);
    if left.len() != right.len() {
        return false;
    }
    let same = matches_at(&left, &right, 0);
    assert(left@.subrange(0, right@.len() as int) == left@);
    same
}

/// The least index at or after `from` where `pat` occurs in `s`, or
/// `s.len()` when there is none.
pub open spec fn first_occurrence(s: Seq<char>, pat: Seq<char>, from: int) -> int
    decreases s.len() - from,
{
    if from < 0 || from >= s.len() {
        s.len() as int
    } else if occurs_at(s, pat, from) {
        from
    } else {
        first_occurrence(s, pat, from + 1)
    }
}

/// `first_occurrence` returns an index in `from..=s.len()`, there is an
/// occurrence at it unless it is `s.len()`, and none before it.
pub proof fn lemma_first_occurrence(s: Seq<char>, pat: Seq<char>, from: int)
    requires
        0 <= from <= s.len(),
    ensures
        from <= first_occurrence(s, pat, from) <= s.len(),
        first_occurrence(s, pat, from) < s.len() ==> occurs_at(
            s,
            pat,
            first_occurrence(s, pat, from),
        ),
        forall|k: int| from <= k < first_occurrence(s, pat, from) ==> !occurs_at(s, pat, k),
    decreases s.len() - from,
{
    if from < s.len() && !occurs_at(s, pat, from) {
        lemma_first_occurrence(s, pat, from + 1);
    }
}

/// Executable form of [`first_occurrence`].
pub fn find_from(s: &Vec<char>, pat: &Vec<char>, from: usize) -> (r: usize)
    requires
        from <= s.len(),
    ensures
        r == first_occurrence(s@, pat@, from as int),
        from <= r <= s.len(),
{
    let mut i: usize = from;
    while i < s.len()
        invariant
            from <= i <= s.len(),
            first_occurrence(s@, pat@, from as int) == first_occurrence(s@, pat@, i as int),
        decreases s.len() - i,
    {
        if matches_at(s, pat, i) {
            return i;
        }
        i += 1;
    }
    i
}

/// The character that writes the decimal digit `d`.
pub open spec fn digit_char(d: nat) -> char {
    if d == 0 {
        '0'
    } else if d == 1 {
        '1'
    } else if d == 2 {
        '2'
    } else if d == 3 {
        '3'
    } else if d == 4 {
        '4'
    } else if d == 5 {
        '5'
    } else if d == 6 {
        '6'
    } else if d == 7 {
        '7'
    } else if d == 8 {
        '8'
    } else {
        '9'
    }
}

/// The value of a decimal digit character, if it is one.
pub open spec fn digit_value(c: char) -> Option<nat> {
    if c == '0' {
        Some(0)
    } else if c == '1' {
        Some(1)
    } else if c == '2' {
        Some(2)
    } else if c == '3' {
        Some(3)
    } else if c == '4' {
        Some(4)
    } else if c == '5' {
        Some(5)
    } else if c == '6' {
        Some(6)
    } else if c == '7' {
        Some(7)
    } else if c == '8' {
        Some(8)
    } else if c == '9' {
        Some(9)
    } else {
        None
    }
}

/// The decimal notation of `n`: no sign, no leading zeros, `"0"` for zero.
pub open spec fn decimal(n: nat) -> Seq<char>
    decreases n,
{
    if n < 10 {
        seq![digit_char(n)]
    } else {
        decimal(n / 10).push(digit_char(n % 10))
    }
}

fn digit_to_char(d: u64) -> (c: char)
    requires
        d < 10,
    ensures
        c == digit_char(d as nat),
{
    if d == 0 {
        '0'
    } else if d == 1 {
        '1'
    } else if d == 2 {
        '2'
    } else if d == 3 {
        '3'
    } else if d == 4 {
        '4'
    } else if d == 5 {
        '5'
    } else if d == 6 {
        '6'
    } else if d == 7 {
        '7'
    } else if d == 8 {
        '8'
    } else {
        '9'
    }
}

/// Executable form of [`digit_value`].
pub fn char_to_digit(c: char) -> (d: Option<u64>)
    ensures
        match d {
            Some(v) => digit_value(c) == Some(v as nat) && v < 10,
            None => digit_value(c) is None,
        },
{
    if c == '0' {
        Some(0)
    } else if c == '1' {
        Some(1)
    } else if c == '2' {
        Some(2)
    } else if c == '3' {
        Some(3)
    } else if c == '4' {
        Some(4)
    } else if c == '5' {
        Some(5)
    } else if c == '6' {
        Some(6)
    } else if c == '7' {
        Some(7)
    } else if c == '8' {
        Some(8)
    } else if c == '9' {
        Some(9)
    } else {
        None
    }
}

/// Appends the decimal notation of `n` to `out`.
pub fn push_decimal(out: &mut Vec<char>, n: u64)
    ensures
        final(out)@ == old(out)@ + decimal(n as nat),
    decreases n,
{
    if n >= 10 {
        push_decimal(out, n / 10);
    }
    out.push(digit_to_char(n % 10));
}

/// Why a text is not an unsigned decimal number that fits its type.
#[derive(Clone, Copy, Debug, PartialEq, Eq, Structural)]
pub enum NumberFault {
    /// The text is empty.
    Empty,
    /// The text holds a character that is not a digit, or is a lone sign.
    InvalidDigit,
    /// The digits denote a number above the largest value accepted.
    Overflow,
}

/// Reads the digits of `s` from the left, starting from the value `acc`.
/// The first character that cannot be taken decides the fault: one that is
/// no digit is `InvalidDigit`, a digit that lifts the value above `max` is
/// `Overflow`.
pub open spec fn parse_digits(s: Seq<char>, acc: nat, max: nat) -> Result<nat, NumberFault>
    decreases s.len(),
{
    if s.len() == 0 {
        Ok(acc)
    } else {
        match digit_value(s[0]) {
            None => Err(NumberFault::InvalidDigit),
            Some(d) => if acc * 10 + d > max {
                Err(NumberFault::Overflow)
            } else {
                parse_digits(s.skip(1), acc * 10 + d, max)
            },
        }
    }
}

/// The unsigned number that `s` denotes, as the standard library reads one
/// from text: a non-empty run of decimal digits, optionally after one `+`,
/// with a value of at most `max`. No blanks, no `-`, no digit separators.
pub open spec fn parse_unsigned(s: Seq<char>, max: nat) -> Result<nat, NumberFault> {
    if s.len() == 0 {
        Err(NumberFault::Empty)
    } else if s.len() == 1 && (s[0] == '+' || s[0] == '-') {
        Err(NumberFault::InvalidDigit)
    } else if s[0] == '+' {
        parse_digits(s.skip(1), 0, max)
    } else {
        parse_digits(s, 0, max)
    }
}

/// Parses `s[from..to]` as an unsigned decimal number of at most `max`.
pub fn parse_number(s: &Vec<char>, from: usize, to: usize, max: u64) -> (r: Result<
    u64,
    NumberFault,
>)
    requires
        from <= to <= s.len(),
    ensures
        match r {
            Ok(n) => parse_unsigned(s@.subrange(from as int, to as int), max as nat) == Ok::<
                nat,
                NumberFault,
            >(n as nat),
            Err(e) => parse_unsigned(s@.subrange(from as int, to as int), max as nat) == Err::<
                nat,
                NumberFault,
            >(e),
        },
{
    let ghost text = s@.subrange(from as int, to as int);
    let ghost goal = parse_unsigned(text, max as nat);
    if from == to {
        return Err(NumberFault::Empty);
    }
    assert(text[0] == s@[from as int]);
    let first = s[from];
    if to - from == 1 && (first == '+' || first == '-') {
        return Err(NumberFault::InvalidDigit);
    }
    let start: usize = if first == '+' {
        from + 1
    } else {
        from
    };
    assert(s@.subrange(start as int, to as int) == if first == '+' {
        text.skip(1)
    } else {
        text
    });
    let mut acc: u64 = 0;
    let mut i: usize = start;
    while i < to
        invariant
            start <= i <= to <= s.len(),
            from <= start,
            acc <= max,
            goal == parse_unsigned(s@.subrange(from as int, to as int), max as nat),
            goal == parse_digits(s@.subrange(i as int, to as int), acc as nat, max as nat),
        decreases to - i,
    {
        let ghost rest = s@.subrange(i as int, to as int);
        assert(rest[0] == s@[i as int]);
        assert(rest.skip(1) == s@.subrange(i + 1, to as int));
        match char_to_digit(s[i]) {
            None => {
                return Err(NumberFault::InvalidDigit);
            },
            Some(d) => {
                if d > max || acc > (max - d) / 10 {
                    assert(acc * 10 + d > max);
                    return Err(NumberFault::Overflow);
                }
                assert(acc * 10 + d <= max);
                acc = acc * 10 + d;
            },
        }
        i += 1;
    }
    Ok(acc)
}

/// Every character of a decimal notation is a digit, and there is at least
/// one.
pub proof fn lemma_decimal_is_digits(n: nat)
    ensures
        decimal(n).len() > 0,
        forall|i: int| 0 <= i < decimal(n).len() ==> digit_value(#[trigger] decimal(n)[i]) is Some,
    decreases n,
{
    if n >= 10 {
        lemma_decimal_is_digits(n / 10);
    }
}

proof fn lemma_parse_digits_push(s: Seq<char>, c: char, acc: nat, max: nat)
    requires
        parse_digits(s, acc, max) is Ok,
        digit_value(c) is Some,
        parse_digits(s, acc, max)->Ok_0 * 10 + digit_value(c)->0 <= max,
    ensures
        parse_digits(s.push(c), acc, max) == Ok::<nat, NumberFault>(
            parse_digits(s, acc, max)->Ok_0 * 10 + digit_value(c)->0,
        ),
    decreases s.len(),
{
    if s.len() == 0 {
        assert(s.push(c).skip(1) == Seq::<char>::empty());
        assert(parse_digits(Seq::<char>::empty(), acc * 10 + digit_value(c)->0, max) == Ok::<
            nat,
            NumberFault,
        >(acc * 10 + digit_value(c)->0));
    } else {
        let d = digit_value(s[0])->0;
        assert(s.push(c)[0] == s[0]);
        assert(s.push(c).skip(1) == s.skip(1).push(c));
        lemma_parse_digits_push(s.skip(1), c, acc * 10 + d, max);
    }
}

proof fn lemma_decimal_digits_parse(n: nat, max: nat)
    requires
        n <= max,
    ensures
        parse_digits(decimal(n), 0, max) == Ok::<nat, NumberFault>(n),
    decreases n,
{
    if n < 10 {
        assert(decimal(n).skip(1) == Seq::<char>::empty());
        assert(parse_digits(Seq::<char>::empty(), n, max) == Ok::<nat, NumberFault>(n));
    } else {
        lemma_decimal_digits_parse(n / 10, max);
        lemma_parse_digits_push(decimal(n / 10), digit_char(n % 10), 0, max);
    }
}

/// Reading back the decimal notation of a number gives the number.
pub proof fn law_decimal_parses_back(n: nat, max: nat)
    requires
        n <= max,
    ensures
        parse_unsigned(decimal(n), max) == Ok::<nat, NumberFault>(n),
{
    lemma_decimal_is_digits(n);
    lemma_decimal_digits_parse(n, max);
    assert(digit_value(decimal(n)[0]) is Some);
}

} // verus!
