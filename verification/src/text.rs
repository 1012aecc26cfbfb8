//! Text as characters and as UTF-8 bytes: splitting at a byte offset,
//! inserting and removing characters, white space, decimal numbers, padding.
use vstd::prelude::*;
use vstd::string::*;
use vstd::utf8::*;

verus! {

/// Appends one character to a string. This is `String::push` of the standard
/// library, of which it is assumed that the new text is the old text followed
/// by the character.
#[verifier::external_body]
pub(crate) fn push_char(s: &mut String, c: char)
    ensures
        final(s)@ == old(s)@.push(c),
{
    s.push(c);
}

/// The characters of a string, in order.
pub fn chars_of(s: &str) -> (r: Vec<char>)
    ensures
        r@ == s@,
{
    broadcast use group_string_axioms;

    let mut out: Vec<char> = Vec::new();
    for c in it: s.chars()
        invariant
            it.seq() == s@,
            out@ == it.seq().take(it.index() as int),
    {
        out.push(c);
    }
    out
}

/// The string made of the characters `chars[from..to]`.
pub fn text_of_range(chars: &Vec<char>, from: usize, to: usize) -> (r: String)
    requires
        from <= to <= chars@.len(),
    ensures
        r@ == chars@.subrange(from as int, to as int),
{
    let mut out = String::new();
    let mut i: usize = from;
    while i < to
        invariant
            from <= i <= to <= chars@.len(),
            out@ == chars@.subrange(from as int, i as int),
        decreases to - i,
    {
        push_char(&mut out, chars[i]);
        i = i + 1;
    }
    out
}

/// Encoding a text piece by piece gives the encoding of the whole.
pub proof fn lemma_encode_concat(a: Seq<char>, b: Seq<char>)
    ensures
        encode_utf8(a + b) == encode_utf8(a) + encode_utf8(b),
    decreases a.len(),
{
    if a.len() == 0 {
        assert(a + b =~= b);
        assert(encode_utf8(a) + encode_utf8(b) =~= encode_utf8(b));
    } else {
        lemma_encode_concat(a.drop_first(), b);
        assert((a + b).drop_first() =~= a.drop_first() + b);
        assert(encode_utf8(a + b) =~= encode_utf8(a) + encode_utf8(b));
    }
}

/// A text of one character encodes to the bytes of that character.
pub proof fn lemma_encode_single(c: char)
    ensures
        encode_utf8(seq![c]) == encode_scalar(c as u32),
{
    reveal_with_fuel(encode_utf8, 2);
    assert(seq![c].drop_first() =~= Seq::<char>::empty());
    assert(encode_utf8(seq![c]) =~= encode_scalar(c as u32));
}

/// Where two encoded texts are joined there is a character boundary.
pub proof fn lemma_boundary_at_junction(head: Seq<u8>, tail: Seq<u8>)
    requires
        valid_utf8(head),
        valid_utf8(tail),
    ensures
        valid_utf8(head + tail),
        is_char_boundary(head + tail, head.len() as int),
    decreases head.len(),
{
    valid_utf8_concat(head, tail);
    if head.len() > 0 {
        let rest = pop_first_scalar(head);
        lemma_boundary_at_junction(rest, tail);
        assert(pop_first_scalar(head + tail) =~= rest + tail);
    }
}

/// Behind an encoded text, the boundaries of what follows are the
/// boundaries of the whole, moved by its length.
pub proof fn lemma_boundary_behind_prefix(head: Seq<u8>, tail: Seq<u8>, offset: int)
    requires
        valid_utf8(head),
        valid_utf8(tail),
        0 <= offset,
    ensures
        is_char_boundary(head + tail, head.len() + offset) == is_char_boundary(tail, offset),
    decreases head.len(),
{
    valid_utf8_concat(head, tail);
    if head.len() == 0 {
        assert(head + tail =~= tail);
    } else {
        let rest = pop_first_scalar(head);
        assert(pop_first_scalar(head + tail) =~= rest + tail);
        lemma_boundary_behind_prefix(rest, tail, offset);
    }
}

/// No character boundary lies inside the bytes of the first character of a
/// text.
pub proof fn lemma_no_boundary_in_first_char(text: Seq<char>, offset: int)
    requires
        text.len() > 0,
        0 < offset < encode_scalar(text[0] as u32).len(),
    ensures
        !is_char_boundary(encode_utf8(text), offset),
{
    let bytes = encode_utf8(text);
    encode_utf8_valid_utf8(text);
    encode_utf8_first_scalar(text);
    reveal_with_fuel(is_char_boundary, 2);
}

/// The text that lies before the byte offset `at`.
pub open spec fn text_before(text: Seq<char>, at: int) -> Seq<char> {
    decode_utf8(encode_utf8(text).subrange(0, at))
}

/// The text that lies at and after the byte offset `at`.
pub open spec fn text_from(text: Seq<char>, at: int) -> Seq<char> {
    decode_utf8(encode_utf8(text).subrange(at, encode_utf8(text).len() as int))
}

/// The text with the character `c` put in at the byte offset `at`.
pub open spec fn with_char_inserted(text: Seq<char>, at: int, c: char) -> Seq<char> {
    text_before(text, at).push(c) + text_from(text, at)
}

/// The text without the bytes `from..to`.
pub open spec fn with_range_removed(text: Seq<char>, from: int, to: int) -> Seq<char> {
    text_before(text, from) + text_from(text, to)
}

/// At a character boundary a text falls into the text before it and the text
/// after it, and each part encodes to its share of the bytes.
pub proof fn lemma_split_at_boundary(text: Seq<char>, at: int)
    requires
        is_char_boundary(encode_utf8(text), at),
    ensures
        0 <= at <= encode_utf8(text).len(),
        text == text_before(text, at) + text_from(text, at),
        encode_utf8(text_before(text, at)) == encode_utf8(text).subrange(0, at),
        encode_utf8(text_from(text, at)) == encode_utf8(text).subrange(
            at,
            encode_utf8(text).len() as int,
        ),
{
    let bytes = encode_utf8(text);
    encode_utf8_valid_utf8(text);
    valid_utf8_split(bytes, at);
    decode_utf8_split(bytes, at);
    encode_utf8_decode_utf8(text);
    decode_utf8_encode_utf8(bytes.subrange(0, at));
    decode_utf8_encode_utf8(bytes.subrange(at, bytes.len() as int));
}

/// Putting a character in at a boundary puts its bytes between the bytes
/// before and the bytes after, and the offset behind them is a boundary of
/// the new text.
pub proof fn lemma_insert_char(text: Seq<char>, at: int, c: char)
    requires
        is_char_boundary(encode_utf8(text), at),
    ensures
        0 <= at <= encode_utf8(text).len(),
        encode_utf8(with_char_inserted(text, at, c)) == encode_utf8(text).subrange(0, at)
            + encode_scalar(c as u32) + encode_utf8(text).subrange(
            at,
            encode_utf8(text).len() as int,
        ),
        encode_utf8(text_before(text, at).push(c)).len() == at + encode_scalar(c as u32).len(),
        is_char_boundary(
            encode_utf8(with_char_inserted(text, at, c)),
            at + encode_scalar(c as u32).len(),
        ),
{
    let head = text_before(text, at);
    let tail = text_from(text, at);
    lemma_split_at_boundary(text, at);
    assert(head.push(c) =~= head + seq![c]);
    lemma_encode_concat(head, seq![c]);
    lemma_encode_single(c);
    lemma_encode_concat(head.push(c), tail);
    encode_utf8_valid_utf8(head.push(c));
    encode_utf8_valid_utf8(tail);
    lemma_boundary_at_junction(encode_utf8(head.push(c)), encode_utf8(tail));
}

/// The bytes of a character that was put in hold no boundary but at their
/// two ends: where the character starts there is a boundary of the new text,
/// and between its start and its end there is none.
pub proof fn lemma_inserted_char_is_whole(text: Seq<char>, at: int, c: char)
    requires
        is_char_boundary(encode_utf8(text), at),
    ensures
        is_char_boundary(encode_utf8(with_char_inserted(text, at, c)), at),
        forall|k: int|
            at < k < at + encode_scalar(c as u32).len() ==> !is_char_boundary(
                encode_utf8(with_char_inserted(text, at, c)),
                k,
            ),
{
    let head = text_before(text, at);
    let tail = text_from(text, at);
    let rest = seq![c] + tail;
    lemma_split_at_boundary(text, at);
    assert(head.push(c) + tail =~= head + rest);
    lemma_encode_concat(head, rest);
    encode_utf8_valid_utf8(head);
    encode_utf8_valid_utf8(rest);
    lemma_boundary_at_junction(encode_utf8(head), encode_utf8(rest));
    assert forall|k: int| at < k < at + encode_scalar(c as u32).len() implies !is_char_boundary(
        encode_utf8(with_char_inserted(text, at, c)),
        k,
    ) by {
        lemma_boundary_behind_prefix(encode_utf8(head), encode_utf8(rest), k - at);
        lemma_no_boundary_in_first_char(rest, k - at);
    }
}

/// Taking the bytes between two boundaries out leaves the bytes before the
/// first and the bytes after the second, and the first is a boundary of the
/// new text.
pub proof fn lemma_remove_range(text: Seq<char>, from: int, to: int)
    requires
        from <= to,
        is_char_boundary(encode_utf8(text), from),
        is_char_boundary(encode_utf8(text), to),
    ensures
        0 <= from <= to <= encode_utf8(text).len(),
        encode_utf8(with_range_removed(text, from, to)) == encode_utf8(text).subrange(0, from)
            + encode_utf8(text).subrange(to, encode_utf8(text).len() as int),
        is_char_boundary(encode_utf8(with_range_removed(text, from, to)), from),
{
    let head = text_before(text, from);
    let tail = text_from(text, to);
    lemma_split_at_boundary(text, from);
    lemma_split_at_boundary(text, to);
    lemma_encode_concat(head, tail);
    encode_utf8_valid_utf8(head);
    encode_utf8_valid_utf8(tail);
    lemma_boundary_at_junction(encode_utf8(head), encode_utf8(tail));
}

/// Splits a string at a character boundary.
pub fn split_text(s: &str, at: usize) -> (r: (&str, &str))
    requires
        is_char_boundary(encode_utf8(s@), at as int),
    ensures
        r.0@ == text_before(s@, at as int),
        r.1@ == text_from(s@, at as int),
{
    let r = s.split_at(at);
    proof {
        encode_utf8_decode_utf8(r.0@);
        encode_utf8_decode_utf8(r.1@);
    }
    r
}

/// Puts the character `c` into the text at the boundary `at`. Returns the new
/// text and the offset just after the new character, which is a boundary of
/// the new text.
pub fn insert_char(value: &str, at: usize, c: char) -> (r: (String, usize))
    requires
        is_char_boundary(encode_utf8(value@), at as int),
    ensures
        r.0@ == with_char_inserted(value@, at as int, c),
        r.1 == at + encode_scalar(c as u32).len(),
        r.1 == encode_utf8(text_before(value@, at as int).push(c)).len(),
        is_char_boundary(encode_utf8(r.0@), r.1 as int),
{
    let (head, tail) = split_text(value, at);
    let mut out = head.to_owned();
    push_char(&mut out, c);
    let cursor = out.as_str().as_bytes().len();
    proof {
        lemma_insert_char(value@, at as int, c);
    }
    out.append(tail);
    (out, cursor)
}

/// Takes the bytes `from..to` out of the text; both offsets are character
/// boundaries. In the new text `from` is a boundary.
pub fn remove_range(value: &str, from: usize, to: usize) -> (r: String)
    requires
        from <= to,
        is_char_boundary(encode_utf8(value@), from as int),
        is_char_boundary(encode_utf8(value@), to as int),
    ensures
        r@ == with_range_removed(value@, from as int, to as int),
        is_char_boundary(encode_utf8(r@), from as int),
        encode_utf8(r@).len() == encode_utf8(value@).len() - (to - from),
{
    let (head, _) = split_text(value, from);
    let (_, tail) = split_text(value, to);
    let mut out = head.to_owned();
    proof {
        lemma_remove_range(value@, from as int, to as int);
    }
    out.append(tail);
    out
}

/// White space as Unicode defines it (the property White_Space): what
/// separates the words of a line.
pub open spec fn is_space(c: char) -> bool {
    let u = c as u32;
    ||| 0x09 <= u <= 0x0d
    ||| u == 0x20
    ||| u == 0x85
    ||| u == 0xa0
    ||| u == 0x1680
    ||| 0x2000 <= u <= 0x200a
    ||| u == 0x2028
    ||| u == 0x2029
    ||| u == 0x202f
    ||| u == 0x205f
    ||| u == 0x3000
}

/// Whether a character is white space.
pub fn char_is_space(c: char) -> (b: bool)
    ensures
        b == is_space(c),
{
    let u = c as u32;
    (0x09 <= u && u <= 0x0d) || u == 0x20 || u == 0x85 || u == 0xa0 || u == 0x1680 || (0x2000 <= u
        && u <= 0x200a) || u == 0x2028 || u == 0x2029 || u == 0x202f || u == 0x205f || u == 0x3000
}

/// One of the digits `0` to `9`.
pub open spec fn is_digit(c: char) -> bool {
    '0' <= c <= '9'
}

/// The number a digit stands for.
pub open spec fn digit_value(c: char) -> int {
    c as int - '0' as int
}

/// The digit that stands for a number below ten.
pub open spec fn digit_char(d: int) -> char {
    (d + '0' as int) as char
}

/// Whether every character is a digit.
pub open spec fn all_digits(s: Seq<char>) -> bool {
    forall|i: int| 0 <= i < s.len() ==> is_digit(#[trigger] s[i])
}

/// The number that a row of digits stands for in base ten.
pub open spec fn digits_value(s: Seq<char>) -> int
    decreases s.len(),
{
    if s.len() == 0 {
        0
    } else {
        10 * digits_value(s.drop_last()) + digit_value(s.last())
    }
}

/// A text read as a 16-bit number: one `+` may come first, then digits and
/// nothing else, at least one, and the number has to fit.
pub open spec fn parse_u16_text(s: Seq<char>) -> Option<u16> {
    let digits = if s.len() >= 2 && s[0] == '+' {
        s.drop_first()
    } else {
        s
    };
    if digits.len() > 0 && all_digits(digits) && digits_value(digits) <= u16::MAX {
        Some(digits_value(digits) as u16)
    } else {
        None
    }
}

/// A number written in base ten, without leading zeros.
pub open spec fn decimal_text(n: nat) -> Seq<char>
    decreases n,
{
    if n < 10 {
        seq![digit_char(n as int)]
    } else {
        decimal_text(n / 10).push(digit_char((n % 10) as int))
    }
}

/// A row of digits stands for a number that is not negative and not smaller
/// than what any of its prefixes stands for.
pub proof fn lemma_digits_prefix(s: Seq<char>, k: int)
    requires
        all_digits(s),
        0 <= k <= s.len(),
    ensures
        0 <= digits_value(s.take(k)) <= digits_value(s),
    decreases s.len() - k,
{
    if k == s.len() {
        assert(s.take(k) =~= s);
        lemma_digits_nonnegative(s);
    } else {
        lemma_digits_prefix(s, k + 1);
        assert(s.take(k + 1).drop_last() =~= s.take(k));
        assert(is_digit(s[k]));
        lemma_digits_nonnegative(s.take(k));
    }
}

/// A row of digits stands for a number that is not negative.
pub proof fn lemma_digits_nonnegative(s: Seq<char>)
    requires
        all_digits(s),
    ensures
        0 <= digits_value(s),
    decreases s.len(),
{
    if s.len() > 0 {
        assert(is_digit(s.last()));
        lemma_digits_nonnegative(s.drop_last());
    }
}

/// What is written by `decimal_text` is read back by `parse_u16_text`.
pub proof fn lemma_decimal_text_parses(n: u16)
    ensures
        parse_u16_text(decimal_text(n as nat)) == Some(n),
{
    lemma_decimal_text_digits(n as nat);
}

/// `decimal_text` writes digits only, at least one, and they stand for the
/// number.
pub proof fn lemma_decimal_text_digits(n: nat)
    ensures
        decimal_text(n).len() > 0,
        all_digits(decimal_text(n)),
        digits_value(decimal_text(n)) == n,
    decreases n,
{
    if n < 10 {
        let s = decimal_text(n);
        assert(s.drop_last() =~= Seq::<char>::empty());
        assert(digits_value(s.drop_last()) == 0);
    } else {
        lemma_decimal_text_digits(n / 10);
        let s = decimal_text(n);
        assert(s.drop_last() =~= decimal_text(n / 10));
    }
}

/// Reads a text as a 16-bit number.
pub fn parse_u16(chars: &Vec<char>) -> (r: Option<u16>)
    ensures
        r == parse_u16_text(chars@),
{
    let n = chars.len();
    let start: usize = if n >= 2 && chars[0] == '+' {
        1
    } else {
        0
    };
    let ghost digits = chars@.subrange(start as int, n as int);
    proof {
        if start == 1 {
            assert(digits =~= chars@.drop_first());
        } else {
            assert(digits =~= chars@);
        }
    }
    if start >= n {
        return None;
    }
    let mut value: u32 = 0;
    let mut i: usize = start;
    while i < n
        invariant
            start <= i <= n == chars@.len(),
            digits == chars@.subrange(start as int, n as int),
            digits == (if chars@.len() >= 2 && chars@[0] == '+' {
                chars@.drop_first()
            } else {
                chars@
            }),
            all_digits(digits.take(i - start)),
            value == digits_value(digits.take(i - start)),
            value <= u16::MAX,
        decreases n - i,
    {
        let c = chars[i];
        if !('0' <= c && c <= '9') {
            proof {
                assert(!is_digit(digits[i - start]));
            }
            return None;
        }
        let d = c as u32 - '0' as u32;
        proof {
            assert(digits.take(i - start + 1).drop_last() =~= digits.take(i - start));
            assert(digits.take(i - start + 1).last() == c);
            assert forall|j: int| 0 <= j < i - start + 1 implies is_digit(
                #[trigger] digits.take(i - start + 1)[j],
            ) by {
                if j < i - start {
                    assert(digits.take(i - start + 1)[j] == digits.take(i - start)[j]);
                }
            }
        }
        let next = value * 10 + d;
        if next > 0xffff {
            proof {
                if all_digits(digits) {
                    lemma_digits_prefix(digits, i - start + 1);
                }
            }
            return None;
        }
        value = next;
        i = i + 1;
    }
    proof {
        assert(digits.take(n - start) =~= digits);
    }
    Some(value as u16)
}

/// The digit for a number below ten.
pub fn digit_of(d: u128) -> (c: char)
    requires
        d < 10,
    ensures
        c == digit_char(d as int),
{
    match d {
        0 => '0',
        1 => '1',
        2 => '2',
        3 => '3',
        4 => '4',
        5 => '5',
        6 => '6',
        7 => '7',
        8 => '8',
        _ => '9',
    }
}

/// Appends a number in base ten.
pub fn push_decimal(out: &mut String, n: u128)
    ensures
        final(out)@ == old(out)@ + decimal_text(n as nat),
    decreases n,
{
    if n >= 10 {
        push_decimal(out, n / 10);
    }
    let ghost before = out@;
    push_char(out, digit_of(n % 10));
    proof {
        if n >= 10 {
            assert(before.push(digit_char((n % 10) as int)) =~= old(out)@ + decimal_text(n as nat));
        } else {
            assert(before.push(digit_char(n as int)) =~= old(out)@ + decimal_text(n as nat));
        }
    }
}

/// A number written in base ten.
pub fn decimal_string(n: u128) -> (r: String)
    ensures
        r@ == decimal_text(n as nat),
{
    let mut out = String::new();
    push_decimal(&mut out, n);
    proof {
        assert(Seq::<char>::empty() + decimal_text(n as nat) =~= decimal_text(n as nat));
    }
    out
}

/// Whether `pat` stands in `s` at the offset `at`.
pub open spec fn occurs_at(s: Seq<char>, pat: Seq<char>, at: int) -> bool {
    0 <= at && at + pat.len() <= s.len() && s.subrange(at, at + pat.len()) == pat
}

/// Whether `s` begins with `pat`.
pub open spec fn starts_with_text(s: Seq<char>, pat: Seq<char>) -> bool {
    occurs_at(s, pat, 0)
}

/// Whether `pat` stands somewhere in `s`.
pub open spec fn contains_text(s: Seq<char>, pat: Seq<char>) -> bool {
    exists|at: int| occurs_at(s, pat, at)
}

/// Whether `pat` stands in `hay` at the offset `at`.
pub fn matches_at(hay: &Vec<char>, pat: &Vec<char>, at: usize) -> (b: bool)
    ensures
        b == occurs_at(hay@, pat@, at as int),
{
    if pat.len() > hay.len() || at > hay.len() - pat.len() {
        return false;
    }
    let n = hay.len();
    let mut j: usize = 0;
    while j < pat.len()
        invariant
            j <= pat@.len(),
            n == hay@.len(),
            at + pat@.len() <= n,
            forall|k: int| 0 <= k < j ==> hay@[at + k] == pat@[k],
        decreases pat.len() - j,
    {
        if hay[at + j] != pat[j] {
            proof {
                assert(hay@.subrange(at as int, at + pat@.len())[j as int] == hay@[at + j]);
            }
            return false;
        }
        j = j + 1;
    }
    proof {
        assert(hay@.subrange(at as int, at + pat@.len()) =~= pat@);
    }
    true
}

/// Whether `pat` stands somewhere in `hay`.
pub fn contains_chars(hay: &Vec<char>, pat: &Vec<char>) -> (b: bool)
    ensures
        b == contains_text(hay@, pat@),
{
    if pat.len() > hay.len() {
        return false;
    }
    let last = hay.len() - pat.len();
    let mut i: usize = 0;
    loop
        invariant
            last == hay@.len() - pat@.len(),
            i <= last,
            forall|k: int| 0 <= k < i ==> !occurs_at(hay@, pat@, k),
        decreases last - i,
    {
        if matches_at(hay, pat, i) {
            return true;
        }
        if i == last {
            return false;
        }
        i = i + 1;
    }
}

/// Whether two texts are the same.
pub fn same_chars(a: &Vec<char>, b: &Vec<char>) -> (r: bool)
    ensures
        r == (a@ == b@),
{
    if a.len() != b.len() {
        return false;
    }
    let r = matches_at(a, b, 0);
    proof {
        assert(a@.subrange(0, a@.len() as int) =~= a@);
    }
    r
}

/// `n` spaces.
pub open spec fn spaces(n: int) -> Seq<char> {
    Seq::new(
        if n > 0 {
            n as nat
        } else {
            0
        },
        |i: int| ' ',
    )
}

/// The text filled up with spaces on the right to `width` characters; a text
/// that is as long or longer stays as it is.
pub open spec fn padded(text: Seq<char>, width: int) -> Seq<char> {
    text + spaces(width - text.len())
}

/// Appends the text, filled up with spaces on the right to `width`
/// characters.
pub fn push_padded(out: &mut String, text: &str, width: usize)
    ensures
        final(out)@ == old(out)@ + padded(text@, width as int),
        padded(text@, width as int).len() >= width,
{
    let count = text.unicode_len();
    out.append(text);
    let mut i: usize = count;
    while i < width
        invariant
            count == text@.len(),
            count <= i,
            i <= width || i == count,
            out@ == old(out)@ + text@ + spaces(i - count),
        decreases width - i,
    {
        let ghost before = out@;
        push_char(out, ' ');
        proof {
            assert(before.push(' ') =~= old(out)@ + text@ + spaces(i + 1 - count));
        }
        i = i + 1;
    }
    proof {
        assert(spaces(0) =~= Seq::<char>::empty());
        assert(old(out)@ + text@ + spaces(i - count) =~= old(out)@ + padded(text@, width as int));
    }
}

/// The text filled up with spaces on the left to `width` characters; a text
/// that is as long or longer stays as it is.
pub open spec fn padded_left(text: Seq<char>, width: int) -> Seq<char> {
    spaces(width - text.len()) + text
}

/// Appends the text, filled up with spaces on the left to `width`
/// characters.
pub fn push_padded_left(out: &mut String, text: &str, width: usize)
    ensures
        final(out)@ == old(out)@ + padded_left(text@, width as int),
{
    let count = text.unicode_len();
    let mut i: usize = count;
    while i < width
        invariant
            count == text@.len(),
            count <= i,
            i <= width || i == count,
            out@ == old(out)@ + spaces(i - count),
        decreases width - i,
    {
        let ghost before = out@;
        push_char(out, ' ');
        proof {
            assert(before.push(' ') =~= old(out)@ + spaces(i + 1 - count));
        }
        i = i + 1;
    }
    out.append(text);
    proof {
        assert(old(out)@ + spaces(i - count) + text@ =~= old(out)@ + padded_left(
            text@,
            width as int,
        ));
    }
}

/// The texts of a list of lines.
pub open spec fn lines_text(lines: Seq<String>) -> Seq<Seq<char>> {
    lines.map_values(|l: String| l@)
}

/// Appends a line to a list of lines.
pub fn push_line(out: &mut Vec<String>, line: String)
    ensures
        lines_text(final(out)@) == lines_text(old(out)@).push(line@),
{
    out.push(line);
    proof {
        assert(lines_text(out@) =~= lines_text(old(out)@).push(line@));
    }
}

/// Where the line that starts at `i` ends: at the next line feed, or at the
/// end of the text.
pub open spec fn char_line_end(chars: Seq<char>, i: int) -> int
    decreases chars.len() - i,
{
    if i < 0 || i >= chars.len() || chars[i] == '\n' {
        i
    } else {
        char_line_end(chars, i + 1)
    }
}

/// A line ends at or after its start, on a line feed or at the end of the
/// text, and holds no line feed.
pub proof fn lemma_char_line_end(chars: Seq<char>, i: int)
    requires
        0 <= i <= chars.len(),
    ensures
        i <= char_line_end(chars, i) <= chars.len(),
        char_line_end(chars, i) < chars.len() ==> chars[char_line_end(chars, i)] == '\n',
        forall|k: int| i <= k < char_line_end(chars, i) ==> chars[k] != '\n',
    decreases chars.len() - i,
{
    if i < chars.len() && chars[i] != '\n' {
        lemma_char_line_end(chars, i + 1);
    }
}

/// Where the line that starts at `start` ends.
pub fn find_char_line_end(chars: &Vec<char>, start: usize) -> (r: usize)
    requires
        start <= chars@.len(),
    ensures
        r == char_line_end(chars@, start as int),
        start <= r <= chars@.len(),
{
    proof {
        lemma_char_line_end(chars@, start as int);
    }
    let n = chars.len();
    let mut i: usize = start;
    while i < n && chars[i] != '\n'
        invariant
            n == chars@.len(),
            start <= i <= n,
            char_line_end(chars@, i as int) == char_line_end(chars@, start as int),
        decreases n - i,
    {
        i = i + 1;
    }
    i
}

/// The offset of the first character at or after `i` that is no white
/// space; the length of the text where there is none.
pub open spec fn skip_spaces(s: Seq<char>, i: int) -> int
    decreases s.len() - i,
{
    if 0 <= i < s.len() && is_space(s[i]) {
        skip_spaces(s, i + 1)
    } else {
        i
    }
}

/// The offset after the last character before `j` that is no white space; 0
/// where there is none.
pub open spec fn skip_spaces_back(s: Seq<char>, j: int) -> int
    decreases j,
{
    if 0 < j <= s.len() && is_space(s[j - 1]) {
        skip_spaces_back(s, j - 1)
    } else {
        j
    }
}

/// The text without the white space at its start and at its end.
pub open spec fn trimmed(s: Seq<char>) -> Seq<char> {
    let from = skip_spaces(s, 0);
    let to = skip_spaces_back(s, s.len() as int);
    if from < to {
        s.subrange(from, to)
    } else {
        Seq::empty()
    }
}

/// Going back over white space does not go forward.
pub proof fn lemma_skip_spaces_back(s: Seq<char>, j: int)
    requires
        0 <= j,
    ensures
        0 <= skip_spaces_back(s, j) <= j,
    decreases j,
{
    if 0 < j <= s.len() && is_space(s[j - 1]) {
        lemma_skip_spaces_back(s, j - 1);
    }
}

/// The characters `chars[from..to]` without the white space at their start
/// and at their end.
pub fn trimmed_string(chars: &Vec<char>, from: usize, to: usize) -> (r: String)
    requires
        from <= to <= chars@.len(),
    ensures
        r@ == trimmed(chars@.subrange(from as int, to as int)),
{
    let ghost line = chars@.subrange(from as int, to as int);
    let mut a: usize = from;
    while a < to && char_is_space(chars[a])
        invariant
            from <= a <= to <= chars@.len(),
            line == chars@.subrange(from as int, to as int),
            skip_spaces(line, a - from) == skip_spaces(line, 0),
        decreases to - a,
    {
        a = a + 1;
    }
    if a >= to {
        proof {
            lemma_skip_spaces_back(line, line.len() as int);
        }
        return String::new();
    }
    let mut b: usize = to;
    while b > a + 1 && char_is_space(chars[b - 1])
        invariant
            from <= a < b <= to <= chars@.len(),
            line == chars@.subrange(from as int, to as int),
            !is_space(line[a - from]),
            skip_spaces_back(line, b - from) == skip_spaces_back(line, line.len() as int),
        decreases b,
    {
        b = b - 1;
    }
    proof {
        assert(line.subrange(a - from, b - from) =~= chars@.subrange(a as int, b as int));
    }
    text_of_range(chars, a, b)
}

/// The texts joined, with `sep` between each two.
pub open spec fn joined(parts: Seq<Seq<char>>, sep: Seq<char>) -> Seq<char>
    decreases parts.len(),
{
    if parts.len() == 0 {
        Seq::empty()
    } else if parts.len() == 1 {
        parts[0]
    } else {
        joined(parts.drop_last(), sep) + sep + parts.last()
    }
}

} // verus!
