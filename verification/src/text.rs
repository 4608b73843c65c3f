//! Characters and strings: the classes of characters that the lexer tells
//! apart, decimal numerals, and the order of strings.

use vstd::prelude::*;

verus! {

/// The decimal digits `0` to `9`.
pub open spec fn is_digit(c: char) -> bool {
    '0' <= c <= '9'
}

/// The letters `a` to `z` and `A` to `Z`.
pub open spec fn is_letter(c: char) -> bool {
    ('a' <= c <= 'z') || ('A' <= c <= 'Z')
}

/// A character that a name can start with.
pub open spec fn is_name_start(c: char) -> bool {
    is_letter(c) || c == '_'
}

/// A character that a name can go on with.
pub open spec fn is_name_part(c: char) -> bool {
    is_letter(c) || is_digit(c) || c == '_'
}

/// The characters that end a line, other than the pair of a carriage return
/// and a line feed: line feed, vertical tab, form feed, carriage return, next
/// line, line separator, paragraph separator.
pub open spec fn is_line_break(c: char) -> bool {
    c == '\n' || c == '\x0B' || c == '\x0C' || c == '\r' || c == '\u{85}' || c == '\u{2028}' || c
        == '\u{2029}'
}

/// The characters with the Unicode property `White_Space`.
pub open spec fn is_whitespace(c: char) -> bool {
    ('\t' <= c <= '\r') || c == ' ' || c == '\u{85}' || c == '\u{A0}' || c == '\u{1680}' || (
    '\u{2000}' <= c <= '\u{200A}') || c == '\u{2028}' || c == '\u{2029}' || c == '\u{202F}' || c
        == '\u{205F}' || c == '\u{3000}'
}

/// Whether a character is a decimal digit.
pub fn digit(c: char) -> (r: bool)
    ensures
        r == is_digit(c),
{
    '0' <= c && c <= '9'
}

/// Whether a character is a letter from `a` to `z` or from `A` to `Z`.
pub fn letter(c: char) -> (r: bool)
    ensures
        r == is_letter(c),
{
    ('a' <= c && c <= 'z') || ('A' <= c && c <= 'Z')
}

/// Whether a name can start with a character.
pub fn name_start(c: char) -> (r: bool)
    ensures
        r == is_name_start(c),
{
    letter(c) || c == '_'
}

/// Whether a name can go on with a character.
pub fn name_part(c: char) -> (r: bool)
    ensures
        r == is_name_part(c),
{
    letter(c) || digit(c) || c == '_'
}

/// Whether a character ends a line.
pub fn line_break(c: char) -> (r: bool)
    ensures
        r == is_line_break(c),
{
    c == '\n' || c == '\x0B' || c == '\x0C' || c == '\r' || c == '\u{85}' || c == '\u{2028}' || c
        == '\u{2029}'
}

/// Whether a character is white space.
pub fn whitespace(c: char) -> (r: bool)
    ensures
        r == is_whitespace(c),
{
    ('\t' <= c && c <= '\r') || c == ' ' || c == '\u{85}' || c == '\u{A0}' || c == '\u{1680}' || (
    '\u{2000}' <= c && c <= '\u{200A}') || c == '\u{2028}' || c == '\u{2029}' || c == '\u{202F}'
        || c == '\u{205F}' || c == '\u{3000}'
}

/// `String::push` of the standard library: the string afterwards is the
/// string before with the character added at its end.
#[verifier::external_body]
pub(crate) fn push_char(s: &mut String, c: char)
    ensures
        final(s)@ == old(s)@.push(c),
{
    s.push(c)
}

/// The characters of a string, in order.
pub fn chars_of(s: &str) -> (r: Vec<char>)
    ensures
        r@ == s@,
{
    let mut out: Vec<char> = Vec::new();
    let chars = s.chars();
    for c in it: chars
        invariant
            it.seq() == s@,
            out@ == s@.take(it.index() as int),
    {
        out.push(c);
        proof {
            assert(s@.take(it.index() + 1) =~= s@.take(it.index() as int).push(c));
        }
    }
    proof {
        assert(s@.take(s@.len() as int) =~= s@);
    }
    out
}

/// The string made of the characters at the places `from .. to`.
pub(crate) fn text_of(chars: &Vec<char>, from: usize, to: usize) -> (r: String)
    requires
        from <= to <= chars.len(),
    ensures
        r@ == chars@.subrange(from as int, to as int),
{
    let mut out = String::new();
    let mut i: usize = from;
    while i < to
        invariant
            from <= i <= to <= chars.len(),
            out@ == chars@.subrange(from as int, i as int),
        decreases to - i,
    {
        push_char(&mut out, chars[i]);
        proof {
            assert(chars@.subrange(from as int, i + 1) =~= chars@.subrange(
                from as int,
                i as int,
            ).push(chars@[i as int]));
        }
        i += 1;
    }
    out
}

/// The character that is written for a digit's value.
pub open spec fn digit_char(d: int) -> char {
    if d == 0 {
        '0'
    } else if d == 1 {
        '1'
    } else if d == 2 {
        '2'
    } else if d == 3 {
        '3'
    } else if d == 4 {
        '4'
    } else if d == 5 {
        '5'
    } else if d == 6 {
        '6'
    } else if d == 7 {
        '7'
    } else if d == 8 {
        '8'
    } else {
        '9'
    }
}

/// The value of a digit.
pub open spec fn digit_value(c: char) -> int {
    if c == '0' {
        0
    } else if c == '1' {
        1
    } else if c == '2' {
        2
    } else if c == '3' {
        3
    } else if c == '4' {
        4
    } else if c == '5' {
        5
    } else if c == '6' {
        6
    } else if c == '7' {
        7
    } else if c == '8' {
        8
    } else {
        9
    }
}

/// The decimal digits of a natural number, without leading zeros.
pub open spec fn digits_of(n: nat) -> Seq<char>
    decreases n,
{
    if n < 10 {
        seq![digit_char(n as int)]
    } else {
        digits_of(n / 10).push(digit_char((n % 10) as int))
    }
}

/// The decimal numeral of an integer: a minus sign where it is negative,
/// then its digits.
pub open spec fn decimal(n: int) -> Seq<char> {
    if n < 0 {
        seq!['-'] + digits_of((-n) as nat)
    } else {
        digits_of(n as nat)
    }
}

fn digit_of(d: u128) -> (c: char)
    requires
        d < 10,
    ensures
        c == digit_char(d as int),
{
    if d == 0 {
        '0'
    } else if d == 1 {
        '1'
    } else if d == 2 {
        '2'
    } else if d == 3 {
        '3'
    } else if d == 4 {
        '4'
    } else if d == 5 {
        '5'
    } else if d == 6 {
        '6'
    } else if d == 7 {
        '7'
    } else if d == 8 {
        '8'
    } else {
        '9'
    }
}

fn value_of(c: char) -> (d: u128)
    requires
        is_digit(c),
    ensures
        d == digit_value(c),
        d < 10,
{
    if c == '0' {
        0
    } else if c == '1' {
        1
    } else if c == '2' {
        2
    } else if c == '3' {
        3
    } else if c == '4' {
        4
    } else if c == '5' {
        5
    } else if c == '6' {
        6
    } else if c == '7' {
        7
    } else if c == '8' {
        8
    } else {
        9
    }
}

fn push_digits(out: &mut String, n: u128)
    ensures
        final(out)@ == old(out)@ + digits_of(n as nat),
    decreases n,
{
    if n >= 10 {
        push_digits(out, n / 10);
    }
    push_char(out, digit_of(n % 10));
    proof {
        if n >= 10 {
            assert(old(out)@ + digits_of((n / 10) as nat).push(digit_char((n % 10) as int))
                =~= (old(out)@ + digits_of((n / 10) as nat)).push(digit_char((n % 10) as int)));
        } else {
            assert(old(out)@ + seq![digit_char(n as int)] =~= old(out)@.push(digit_char(n as int)));
        }
    }
}

/// The decimal numeral of an integer.
pub fn integer_text(n: isize) -> (r: String)
    ensures
        r@ == decimal(n as int),
{
    let mut out = String::new();
    let wide: i128 = n as i128;
    if wide < 0 {
        push_char(&mut out, '-');
        proof {
            assert(Seq::<char>::empty().push('-') =~= seq!['-']);
        }
        push_digits(&mut out, (0 - wide) as u128);
    } else {
        push_digits(&mut out, wide as u128);
        proof {
            assert(Seq::<char>::empty() + digits_of(n as nat) =~= digits_of(n as nat));
        }
    }
    out
}

/// The decimal numeral of a count.
pub fn count_text(n: usize) -> (r: String)
    ensures
        r@ == decimal(n as int),
{
    let mut out = String::new();
    push_digits(&mut out, n as u128);
    proof {
        assert(Seq::<char>::empty() + digits_of(n as nat) =~= digits_of(n as nat));
    }
    out
}

/// Whether every character is a decimal digit.
pub open spec fn all_digits(s: Seq<char>) -> bool {
    forall|i: int| 0 <= i < s.len() ==> is_digit(#[trigger] s[i])
}

/// The number that a run of digits is the numeral of.
pub open spec fn digits_value(s: Seq<char>) -> nat
    decreases s.len(),
{
    if s.len() == 0 {
        0
    } else {
        (digits_value(s.drop_last()) * 10 + digit_value(s.last())) as nat
    }
}

/// Whether a text starts with a sign.
pub open spec fn has_sign(s: Seq<char>) -> bool {
    s.len() > 0 && (s[0] == '-' || s[0] == '+')
}

/// The integer that a text is the numeral of: one optional sign, then one or
/// more digits. `None` where the text is not of that form.
pub open spec fn numeral_value(s: Seq<char>) -> Option<int> {
    let body = if has_sign(s) {
        s.skip(1)
    } else {
        s
    };
    if body.len() == 0 || !all_digits(body) {
        None
    } else if has_sign(s) && s[0] == '-' {
        Some(-(digits_value(body) as int))
    } else {
        Some(digits_value(body) as int)
    }
}

/// The integer that a text is the numeral of, where there is one and it lies
/// between `low` and `high`.
pub open spec fn numeral_within(s: Seq<char>, low: int, high: int) -> Option<int> {
    match numeral_value(s) {
        Some(v) => if low <= v <= high {
            Some(v)
        } else {
            None
        },
        None => None,
    }
}

/// A longer run of digits has no smaller value than its start.
pub proof fn digits_value_grows(s: Seq<char>, n: int)
    requires
        0 <= n <= s.len(),
    ensures
        digits_value(s.take(n)) <= digits_value(s),
    decreases s.len(),
{
    if n < s.len() {
        digits_value_grows(s.drop_last(), n);
        assert(s.drop_last().take(n) =~= s.take(n));
    } else {
        assert(s.take(n) =~= s);
    }
}

/// Reads the numeral of an integer between `-limit - 1` and `limit`.
fn read_numeral(chars: &Vec<char>, limit: u128, signed: bool) -> (r: Option<(bool, u128)>)
    requires
        limit < 0x1000_0000_0000_0000_0000_0000_0000_0000,
    ensures
        match r {
            Some((negative, magnitude)) => {
                &&& numeral_value(chars@) == Some(
                    if negative {
                        -(magnitude as int)
                    } else {
                        magnitude as int
                    },
                )
                &&& negative ==> signed && magnitude <= limit + 1
                &&& !negative ==> magnitude <= limit
                &&& negative <==> has_sign(chars@) && chars@[0] == '-'
                &&& has_sign(chars@) ==> signed
            },
            None => match numeral_value(chars@) {
                Some(v) => v > limit || v < -limit - 1 || (!signed && has_sign(chars@)),
                None => true,
            },
        },
{
    let n: usize = chars.len();
    let mut start: usize = 0;
    let mut negative: bool = false;
    if n > 0 && (chars[0] == '-' || chars[0] == '+') {
        if !signed {
            return None;
        }
        negative = chars[0] == '-';
        start = 1;
    }
    if start == n {
        return None;
    }
    let ghost body = chars@.skip(start as int);
    let bound: u128 = if negative {
        limit + 1
    } else {
        limit
    };
    let mut acc: u128 = 0;
    let mut i: usize = start;
    while i < n
        invariant
            start <= i <= n == chars.len(),
            body == chars@.skip(start as int),
            all_digits(body.take(i - start)),
            acc == digits_value(body.take(i - start)),
            acc <= bound,
            negative ==> bound == limit + 1,
            !negative ==> bound == limit,
            limit < 0x1000_0000_0000_0000_0000_0000_0000_0000,
            start == if has_sign(chars@) {
                1usize
            } else {
                0usize
            },
            start < n,
            negative <==> has_sign(chars@) && chars@[0] == '-',
            has_sign(chars@) ==> signed,
        decreases n - i,
    {
        let c: char = chars[i];
        proof {
            assert(body[i - start] == c);
            assert(body.take(i - start + 1).drop_last() =~= body.take(i - start));
            assert(body.take(i - start + 1).last() == c);
        }
        if !digit(c) {
            proof {
                assert(!is_digit(body[i - start]));
                assert(!all_digits(body));
            }
            return None;
        }
        let next: u128 = acc * 10 + value_of(c);
        proof {
            assert(digits_value(body.take(i - start + 1)) == next);
            assert(chars@.skip(0) =~= chars@);
            assert forall|k: int| 0 <= k < i - start + 1 implies is_digit(
                #[trigger] body.take(i - start + 1)[k],
            ) by {
                if k < i - start {
                    assert(body.take(i - start)[k] == body.take(i - start + 1)[k]);
                }
            }
        }
        if next > bound {
            proof {
                digits_value_grows(body, i - start + 1);
            }
            return None;
        }
        acc = next;
        i += 1;
    }
    proof {
        assert(body.take(n - start) =~= body);
        assert(chars@.skip(0) =~= chars@);
    }
    Some((negative, acc))
}

/// The integer that a text is the numeral of, where it has one that an
/// `isize` holds.
pub open spec fn parse_isize(s: Seq<char>) -> Option<isize> {
    match numeral_within(s, isize::MIN as int, isize::MAX as int) {
        Some(v) => Some(v as isize),
        None => None,
    }
}

/// The count that a text is the numeral of, where it has one that a `usize`
/// holds and the text has no sign.
pub open spec fn parse_usize(s: Seq<char>) -> Option<usize> {
    if has_sign(s) {
        None
    } else {
        match numeral_within(s, 0, usize::MAX as int) {
            Some(v) => Some(v as usize),
            None => None,
        }
    }
}

/// Reads a signed integer from its decimal numeral.
pub fn read_isize(chars: &Vec<char>) -> (r: Option<isize>)
    ensures
        r == parse_isize(chars@),
{
    match read_numeral(chars, isize::MAX as u128, true) {
        Some((negative, magnitude)) => {
            if negative {
                Some((0 - (magnitude as i128)) as isize)
            } else {
                Some(magnitude as isize)
            }
        },
        None => None,
    }
}

/// Reads a count from its decimal numeral.
pub fn read_usize(chars: &Vec<char>) -> (r: Option<usize>)
    ensures
        r == parse_usize(chars@),
{
    match read_numeral(chars, usize::MAX as u128, false) {
        Some((_, magnitude)) => Some(magnitude as usize),
        None => None,
    }
}

/// Whether `a` comes before `b` in the order of strings, from the place `i`
/// on, up to which the two are the same: at the first place where they
/// differ the character of `a` is the smaller one, or `a` ends there and `b`
/// does not.
pub open spec fn text_less_from(a: Seq<char>, b: Seq<char>, i: int) -> bool
    decreases a.len() - i,
{
    if i < 0 || i >= b.len() {
        false
    } else if i >= a.len() {
        true
    } else if a[i] != b[i] {
        a[i] < b[i]
    } else {
        text_less_from(a, b, i + 1)
    }
}

/// Whether `a` comes before `b` in the order of strings.
pub open spec fn text_less(a: Seq<char>, b: Seq<char>) -> bool {
    text_less_from(a, b, 0)
}

/// Whether the first string comes before the second.
pub fn less_text(a: &str, b: &str) -> (r: bool)
    ensures
        r == text_less(a@, b@),
{
    let x = chars_of(a);
    let y = chars_of(b);
    let mut i: usize = 0;
    loop
        invariant
            i <= x.len(),
            i <= y.len(),
            x@ == a@,
            y@ == b@,
            text_less_from(a@, b@, i as int) == text_less(a@, b@),
        decreases x.len() - i,
    {
        if i >= y.len() {
            return false;
        }
        if i >= x.len() {
            return true;
        }
        if x[i] != y[i] {
            return x[i] < y[i];
        }
        i += 1;
    }
}

/// The text without the line feeds and carriage returns at its end.
pub open spec fn without_line_end(s: Seq<char>) -> Seq<char>
    decreases s.len(),
{
    if s.len() > 0 && (s.last() == '\n' || s.last() == '\r') {
        without_line_end(s.drop_last())
    } else {
        s
    }
}

/// Takes the line feeds and carriage returns off the end of a line.
pub fn trim_line_end(s: &str) -> (r: String)
    ensures
        r@ == without_line_end(s@),
{
    let chars = chars_of(s);
    let mut end: usize = chars.len();
    proof {
        assert(chars@.take(end as int) =~= chars@);
    }
    while end > 0 && (chars[end - 1] == '\n' || chars[end - 1] == '\r')
        invariant
            end <= chars.len(),
            without_line_end(chars@.take(end as int)) == without_line_end(chars@),
        decreases end,
    {
        proof {
            assert(chars@.take(end as int).drop_last() =~= chars@.take(end - 1));
        }
        end -= 1;
    }
    proof {
        assert(chars@.take(end as int) =~= chars@.subrange(0, end as int));
    }
    text_of(&chars, 0, end)
}

} // verus!
