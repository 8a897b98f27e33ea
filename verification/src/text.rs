//! Writing and reading the text a player sees or types.

use vstd::prelude::*;
use vstd::string::*;

verus! {

/// `String::push` adds one character to the end of the text.
pub assume_specification[ String::push ](s: &mut String, c: char)
    ensures
        final(s)@ == old(s)@.push(c),
;

/// What `format!` writes for a text under `{:?}`: the text in quotation marks,
/// with everything that would not print escaped.
pub uninterp spec fn quoted_text(s: Seq<char>) -> Seq<char>;

/// `format!` with `{:?}`, on a text. Which characters it escapes, and how, is
/// left to it: the result is named and nothing else is said of it.
#[verifier::external_body]
pub(crate) fn quoted(s: &str) -> (r: String)
    ensures
        r@ == quoted_text(s@),
{
    format!("{:?}", s)
}

/// What `str::to_uppercase` makes of a text: every character replaced by its
/// uppercase mapping, which may be longer than one character.
pub uninterp spec fn uppercase_text(s: Seq<char>) -> Seq<char>;

/// `str::to_uppercase`. The mapping itself is left to it: the result is named
/// and nothing else is said of it.
#[verifier::external_body]
pub(crate) fn uppercase(s: &str) -> (r: String)
    ensures
        r@ == uppercase_text(s@),
{
    s.to_uppercase()
}

/// The character for a digit.
pub open spec fn digit(d: nat) -> char {
    (d + '0' as nat) as char
}

/// A number in decimal.
pub open spec fn digits(n: nat) -> Seq<char>
    decreases n,
{
    if n < 10 {
        seq![digit(n)]
    } else {
        digits(n / 10).push(digit(n % 10))
    }
}

fn digit_of(d: u64) -> (r: char)
    requires
        d < 10,
    ensures
        r == digit(d as nat),
{
    if d == 0 {
        '0'
    } else if d == 1 {
        '1'
    } else if d == 2 {
        '2'
    } else if d == 3 {
        '3'
    } else if d == 4 {
        '4'
    } else if d == 5 {
        '5'
    } else if d == 6 {
        '6'
    } else if d == 7 {
        '7'
    } else if d == 8 {
        '8'
    } else {
        '9'
    }
}

/// Writes a number in decimal.
pub fn push_decimal(s: &mut String, n: u64)
    ensures
        final(s)@ == old(s)@ + digits(n as nat),
    decreases n,
{
    if n >= 10 {
        push_decimal(s, n / 10);
    }
    s.push(digit_of(n % 10));
    assert(s@ =~= old(s)@ + digits(n as nat));
}

/// A number in decimal.
pub fn decimal(n: u64) -> (r: String)
    ensures
        r@ == digits(n as nat),
{
    let mut out = String::new();
    push_decimal(&mut out, n);
    assert(out@ =~= digits(n as nat));
    out
}

/// Whether a character is one of the ten decimal digits.
pub open spec fn is_digit(c: char) -> bool {
    '0' <= c <= '9'
}

/// What a row of digits is worth.
pub open spec fn value(s: Seq<char>) -> nat
    decreases s.len(),
{
    if s.len() == 0 {
        0
    } else {
        value(s.drop_last()) * 10 + (s.last() as nat - '0' as nat) as nat
    }
}

/// The digits of a number as it is typed: a plus sign in front is let pass.
pub open spec fn unsigned_part(s: Seq<char>) -> Seq<char> {
    if s.len() > 0 && s[0] == '+' {
        s.skip(1)
    } else {
        s
    }
}

/// The number a text says, if it says one no greater than `max`.
pub open spec fn number_in(s: Seq<char>, max: u64) -> Option<u64> {
    let part = unsigned_part(s);
    if part.len() > 0 && (forall|i: int| 0 <= i < part.len() ==> is_digit(#[trigger] part[i]))
        && value(part) <= max {
        Some(value(part) as u64)
    } else {
        None
    }
}

/// Reads a number: decimal digits, with or without a plus sign in front, and
/// nothing else.
pub fn parse_number(s: &str, max: u64) -> (r: Option<u64>)
    ensures
        r is Some ==> r->0 <= max && s@.len() > 0,
        r is Some ==> forall|i: int|
            0 <= i < s@.len() ==> '0' <= (#[trigger] s@[i]) <= '9' || (i == 0 && s@[i] == '+'),
        r is None ==> s@.len() == 0 || s@ == seq!['+'] || value(unsigned_part(s@)) > max || exists|i: int|
            0 <= i < s@.len() && !('0' <= (#[trigger] s@[i]) <= '9') && !(i == 0 && s@[i] == '+'),
        r == number_in(s@, max),
{
    let n = s.unicode_len();
    let mut start: usize = 0;
    if n > 0 && s.get_char(0) == '+' {
        start = 1;
    }
    let ghost part = unsigned_part(s@);
    assert(part =~= s@.skip(start as int));
    if start == n {
        assert(s@.len() == 0 || s@ =~= seq!['+']);
        return None;
    }
    let mut total: u64 = 0;
    let mut i: usize = start;
    let mut over: bool = false;
    while i < n
        invariant
            start <= i <= n,
            n == s@.len(),
            start <= 1,
            part == unsigned_part(s@),
            part == s@.skip(start as int),
            forall|k: int| 0 <= k < i - start ==> is_digit(#[trigger] part[k]),
            !over ==> total <= max && total == value(part.take(i - start)),
            over ==> value(part.take(i - start)) > max,
        decreases n - i,
    {
        let c = s.get_char(i);
        assert(part[i - start] == c);
        if c < '0' || c > '9' {
            assert(!is_digit(part[i - start]));
            assert(s@[i as int] == c);
            return None;
        }
        let d = (c as u32 - '0' as u32) as u64;
        assert(part.take(i - start + 1).drop_last() =~= part.take(i - start));
        assert(value(part.take(i - start + 1)) == value(part.take(i - start)) * 10 + d);
        if !over {
            if d > max || total > (max - d) / 10 {
                over = true;
            } else {
                total = total * 10 + d;
            }
        }
        i = i + 1;
    }
    assert(part.take(n - start) =~= part);
    assert forall|k: int| 0 <= k < s@.len() implies '0' <= (#[trigger] s@[k]) <= '9' || (k == 0
        && s@[k] == '+') by {
        if k >= start {
            assert(is_digit(part[k - start]));
        }
    }
    if over {
        None
    } else {
        Some(total)
    }
}

/// Reads a whole number of 64 bits.
pub fn parse_u64(s: &str) -> (r: Option<u64>)
    ensures
        r == number_in(s@, u64::MAX),
{
    parse_number(s, u64::MAX)
}

/// Reads a port number.
pub fn parse_u16(s: &str) -> (r: Option<u16>)
    ensures
        match r {
            Some(n) => number_in(s@, 0xffff) == Some(n as u64),
            None => number_in(s@, 0xffff) is None,
        },
{
    match parse_number(s, 0xffff) {
        Some(n) => Some(n as u16),
        None => None,
    }
}

/// Whether two texts are the same.
pub fn same_text(a: &str, b: &str) -> (r: bool)
    ensures
        r == (a@ == b@),
{
    let left = a.to_owned();
    let right = b.to_owned();
    left == right
}

/// Whether a character is white space: it has the White_Space property.
pub open spec fn is_space(c: char) -> bool {
    ||| '\u{9}' <= c <= '\u{d}'
    ||| c == ' '
    ||| c == '\u{85}'
    ||| c == '\u{a0}'
    ||| c == '\u{1680}'
    ||| '\u{2000}' <= c <= '\u{200a}'
    ||| c == '\u{2028}'
    ||| c == '\u{2029}'
    ||| c == '\u{202f}'
    ||| c == '\u{205f}'
    ||| c == '\u{3000}'
}

/// Whether a character is white space.
pub fn space(c: char) -> (r: bool)
    ensures
        c == ' ' || c == '\t' || c == '\n' || c == '\r' ==> r,
        '!' <= c <= '~' ==> !r,
        r == is_space(c),
{
    ('\u{9}' <= c && c <= '\u{d}') || c == ' ' || c == '\u{85}' || c == '\u{a0}' || c == '\u{1680}'
        || ('\u{2000}' <= c && c <= '\u{200a}') || c == '\u{2028}' || c == '\u{2029}' || c
        == '\u{202f}' || c == '\u{205f}' || c == '\u{3000}'
}

/// Whether a character is a control code.
pub open spec fn is_control(c: char) -> bool {
    c <= '\u{1f}' || '\u{7f}' <= c <= '\u{9f}'
}

/// Whether a character is a control code.
pub fn control(c: char) -> (r: bool)
    ensures
        c < ' ' ==> r,
        ' ' <= c <= '~' ==> !r,
        c >= '\u{a0}' ==> !r,
        c == '\u{7f}' ==> r,
        r == is_control(c),
{
    c <= '\u{1f}' || ('\u{7f}' <= c && c <= '\u{9f}')
}

/// How many characters of white space a text starts with.
pub open spec fn leading_spaces(s: Seq<char>) -> nat
    decreases s.len(),
{
    if s.len() > 0 && is_space(s[0]) {
        leading_spaces(s.skip(1)) + 1
    } else {
        0
    }
}

/// How many characters of white space a text ends with.
pub open spec fn trailing_spaces(s: Seq<char>) -> nat
    decreases s.len(),
{
    if s.len() > 0 && is_space(s.last()) {
        trailing_spaces(s.drop_last()) + 1
    } else {
        0
    }
}

/// A text with the white space around it taken off.
pub open spec fn trimmed(s: Seq<char>) -> Seq<char> {
    let tail = s.skip(leading_spaces(s) as int);
    tail.take(tail.len() - trailing_spaces(tail))
}

/// Takes the white space off around a text.
pub fn trim(s: &str) -> (r: String)
    ensures
        r@.len() > 0 ==> !is_space(r@[0]) && !is_space(r@.last()),
        exists|i: int, j: int|
            #![trigger s@.subrange(i, j)]
            0 <= i <= j <= s@.len() && r@ == s@.subrange(i, j) && forall|k: int|
                0 <= k < i || j <= k < s@.len() ==> is_space(#[trigger] s@[k]),
        r@ == trimmed(s@),
{
    let n = s.unicode_len();
    let mut from: usize = 0;
    assert(s@.skip(0) =~= s@);
    while from < n && space(s.get_char(from))
        invariant
            from <= n,
            n == s@.len(),
            leading_spaces(s@) == from + leading_spaces(s@.skip(from as int)),
            forall|k: int| 0 <= k < from ==> is_space(#[trigger] s@[k]),
        decreases n - from,
    {
        assert(s@.skip(from as int).skip(1) =~= s@.skip(from as int + 1));
        assert(s@.skip(from as int)[0] == s@[from as int]);
        from = from + 1;
    }
    let ghost tail = s@.skip(from as int);
    assert(leading_spaces(tail) == 0) by {
        if from < n {
            assert(tail[0] == s@[from as int]);
        }
    }
    let mut to: usize = n;
    assert(tail.take(n - from) =~= tail);
    while to > from && space(s.get_char(to - 1))
        invariant
            from <= to <= n,
            n == s@.len(),
            tail == s@.skip(from as int),
            trailing_spaces(tail) == (n - to) + trailing_spaces(tail.take(to - from)),
            forall|k: int| to <= k < n ==> is_space(#[trigger] s@[k]),
            from < n ==> !is_space(s@[from as int]),
        decreases to,
    {
        assert(tail.take(to - from).last() == s@[to - 1]);
        assert(tail.take(to - from).drop_last() =~= tail.take(to - from - 1));
        to = to - 1;
    }
    assert(trailing_spaces(tail.take(to - from)) == 0) by {
        if to > from {
            assert(tail.take(to - from).last() == s@[to - 1]);
        }
    }
    assert(s@.subrange(from as int, to as int) =~= trimmed(s@));
    s.substring_char(from, to).to_owned()
}

/// A run of blanks.
pub open spec fn blanks(n: nat) -> Seq<char> {
    Seq::new(n, |i: int| ' ')
}

/// A text filled up with blanks on the right to a width. One that is wider
/// already is left as it is.
pub open spec fn padded(s: Seq<char>, width: nat) -> Seq<char> {
    if s.len() >= width {
        s
    } else {
        s + blanks((width - s.len()) as nat)
    }
}

/// Writes a text filled up with blanks on the right to a width.
pub fn push_padded(out: &mut String, s: &str, width: usize)
    ensures
        final(out)@.len() == old(out)@.len() + if s@.len() < width {
            width as nat
        } else {
            s@.len()
        },
        final(out)@.take(old(out)@.len() as int) =~= old(out)@,
        final(out)@.subrange(old(out)@.len() as int, (old(out)@.len() + s@.len()) as int) =~= s@,
        forall|k: int|
            old(out)@.len() + s@.len() <= k < final(out)@.len() ==> #[trigger] final(out)@[k] == ' ',
        final(out)@ == old(out)@ + padded(s@, width as nat),
{
    out.append(s);
    let mut n = s.unicode_len();
    while n < width
        invariant
            s@.len() <= n,
            n == s@.len() || n <= width,
            out@ =~= old(out)@ + s@ + blanks((n - s@.len()) as nat),
        decreases width - n,
    {
        out.push(' ');
        n = n + 1;
    }
    assert(out@ =~= old(out)@ + padded(s@, width as nat));
}

/// The text without its last character.
pub fn without_last(s: &str) -> (r: String)
    ensures
        r@ == if s@.len() > 0 {
            s@.drop_last()
        } else {
            s@
        },
{
    let n = s.unicode_len();
    if n == 0 {
        return s.to_owned();
    }
    assert(s@.subrange(0, n - 1) =~= s@.drop_last());
    s.substring_char(0, n - 1).to_owned()
}

/// A number reads back as it was written.
pub proof fn lemma_a_number_reads_back(n: nat)
    ensures
        digits(n).len() > 0,
        forall|i: int| 0 <= i < digits(n).len() ==> is_digit(#[trigger] digits(n)[i]),
        value(digits(n)) == n,
        n <= u64::MAX ==> number_in(digits(n), u64::MAX) == Some(n as u64),
    decreases n,
{
    if n < 10 {
        assert(digits(n).drop_last() =~= Seq::empty());
        assert(value(Seq::empty()) == 0);
    } else {
        lemma_a_number_reads_back(n / 10);
        assert(digits(n).drop_last() =~= digits(n / 10));
    }
    assert(is_digit(digits(n)[0]));
}

} // verus!
