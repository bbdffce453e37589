//! Character-level building blocks of the wire format: searching and
//! splitting text, line endings, decimal numbers and byte lengths.
//!
//! Text is modelled as `Seq<char>`. Executable code scans a line through a
//! slice of its characters, obtained once with [`chars_of`].

use vstd::prelude::*;
use vstd::slice::*;
use vstd::string::*;
use vstd::utf8::*;

verus! {

/// `String::push` of the standard library: the string afterwards is the
/// string before followed by `ch`, as its documentation says ("appends the
/// given char to the end of this String"). Trusted, not proved.
pub assume_specification[ String::push ](text: &mut String, ch: char)
    ensures
        final(text)@ == old(text)@.push(ch),
;

/// Whether `pattern` stands in `text` at index `at`.
pub open spec fn occurs_at(text: Seq<char>, pattern: Seq<char>, at: int) -> bool {
    0 <= at <= text.len() && pattern.is_prefix_of(text.skip(at))
}

/// The index of the first occurrence of `pattern` in `text`, if there is one.
pub open spec fn position(text: Seq<char>, pattern: Seq<char>) -> Option<int>
    decreases text.len(),
{
    if pattern.is_prefix_of(text) {
        Some(0)
    } else if text.len() == 0 {
        None
    } else {
        match position(text.drop_first(), pattern) {
            Some(i) => Some(i + 1),
            None => None,
        }
    }
}

/// Whether `pattern` occurs anywhere in `text`.
pub open spec fn contains_text(text: Seq<char>, pattern: Seq<char>) -> bool {
    position(text, pattern) is Some
}

/// `text` cut at the first occurrence of `separator`: what stands before it
/// and what stands after it. `None` when the separator does not occur.
pub open spec fn split_once(text: Seq<char>, separator: Seq<char>) -> Option<
    (Seq<char>, Seq<char>),
> {
    match position(text, separator) {
        Some(i) => Some((text.take(i), text.skip(i + separator.len()))),
        None => None,
    }
}

/// `raw` without the carriage returns and line feeds at its end.
pub open spec fn strip_line_end(raw: Seq<char>) -> Seq<char>
    decreases raw.len(),
{
    if raw.len() > 0 && (raw.last() == '\r' || raw.last() == '\n') {
        strip_line_end(raw.drop_last())
    } else {
        raw
    }
}

/// Whether `c` is one of the ten decimal digits.
pub open spec fn is_digit(c: char) -> bool {
    '0' <= c && c <= '9'
}

/// The number a decimal digit stands for.
pub open spec fn digit_value(c: char) -> nat {
    (c as u32 - 48) as nat
}

/// The decimal digit that stands for `d`, for `d < 10`.
pub open spec fn digit_char(d: nat) -> char {
    ((48 + d) as u8) as char
}

/// Whether every character of `text` is a decimal digit.
pub open spec fn all_digits(text: Seq<char>) -> bool {
    forall|i: int| 0 <= i < text.len() ==> is_digit(#[trigger] text[i])
}

/// The number written by a sequence of decimal digits, most significant first.
pub open spec fn digits_value(digits: Seq<char>) -> nat
    decreases digits.len(),
{
    if digits.len() == 0 {
        0
    } else {
        digits_value(digits.drop_last()) * 10 + digit_value(digits.last())
    }
}

/// The digits of a decimal number: `text` itself, or what follows one leading `+`.
pub open spec fn decimal_digits(text: Seq<char>) -> Seq<char> {
    if text.len() > 0 && text[0] == '+' {
        text.drop_first()
    } else {
        text
    }
}

/// The number that `text` denotes in decimal: an optional `+`, then one or
/// more digits and nothing else. `None` for any other text.
pub open spec fn decimal_of(text: Seq<char>) -> Option<nat> {
    let digits = decimal_digits(text);
    if digits.len() > 0 && all_digits(digits) {
        Some(digits_value(digits))
    } else {
        None
    }
}

/// `n` written in decimal, without sign or leading zeros.
pub open spec fn decimal_text(n: nat) -> Seq<char>
    decreases n,
{
    if n < 10 {
        seq![digit_char(n)]
    } else {
        decimal_text(n / 10).push(digit_char(n % 10))
    }
}

/// Each byte read as the character with that code point.
pub open spec fn latin1(bytes: Seq<u8>) -> Seq<char> {
    Seq::new(bytes.len(), |i: int| bytes[i] as char)
}

/// The number of bytes that `text` takes in UTF-8.
pub open spec fn utf8_len(text: Seq<char>) -> nat {
    encode_utf8(text).len()
}

/// What `position` finds stands in the text, and nothing stands before it;
/// what it does not find stands nowhere.
pub proof fn lemma_position(text: Seq<char>, pattern: Seq<char>)
    ensures
        match position(text, pattern) {
            Some(i) => occurs_at(text, pattern, i) && forall|k: int|
                0 <= k < i ==> !occurs_at(text, pattern, k),
            None => forall|k: int| !occurs_at(text, pattern, k),
        },
    decreases text.len(),
{
    assert(text.skip(0) =~= text);
    if pattern.is_prefix_of(text) {
    } else if text.len() == 0 {
    } else {
        let rest = text.drop_first();
        lemma_position(rest, pattern);
        assert forall|k: int| 1 <= k <= text.len() implies occurs_at(text, pattern, k)
            == occurs_at(rest, pattern, k - 1) by {
            assert(text.skip(k) =~= rest.skip(k - 1));
        }
        match position(rest, pattern) {
            Some(i) => {
                assert forall|k: int| 0 <= k < i + 1 implies !occurs_at(text, pattern, k) by {
                    if k >= 1 {
                        assert(!occurs_at(rest, pattern, k - 1));
                    }
                }
            },
            None => {
                assert forall|k: int| !occurs_at(text, pattern, k) by {
                    if 1 <= k <= text.len() {
                        assert(!occurs_at(rest, pattern, k - 1));
                    }
                }
            },
        }
    }
}

/// The first occurrence is where the pattern stands with nothing before it.
pub proof fn lemma_position_is(text: Seq<char>, pattern: Seq<char>, at: int)
    requires
        occurs_at(text, pattern, at),
        forall|k: int| 0 <= k < at ==> !occurs_at(text, pattern, k),
    ensures
        position(text, pattern) == Some(at),
{
    lemma_position(text, pattern);
}

/// A pattern that stands nowhere is not found.
pub proof fn lemma_position_none(text: Seq<char>, pattern: Seq<char>)
    requires
        forall|k: int| 0 <= k <= text.len() ==> !occurs_at(text, pattern, k),
    ensures
        position(text, pattern) == None::<int>,
{
    lemma_position(text, pattern);
}

/// Text is cut where its separator stands, when the separator stands
/// nowhere before.
pub proof fn lemma_split_once_first(before: Seq<char>, separator: Seq<char>, after: Seq<char>)
    requires
        forall|k: int|
            0 <= k < before.len() ==> !occurs_at(before + separator + after, separator, k),
    ensures
        split_once(before + separator + after, separator) == Some((before, after)),
{
    let text = before + separator + after;
    let at = before.len() as int;
    assert(text.skip(at) =~= separator + after);
    assert((separator + after).subrange(0, separator.len() as int) =~= separator);
    lemma_position_is(text, separator, at);
    assert(text.take(at) =~= before);
    assert(text.skip(at + separator.len()) =~= after);
}

/// Text that does not hold a character is cut at the first place where
/// that character follows it.
pub proof fn lemma_split_once_at(before: Seq<char>, separator: Seq<char>, after: Seq<char>)
    requires
        separator.len() == 1,
        !before.contains(separator[0]),
    ensures
        split_once(before + separator + after, separator) == Some((before, after)),
{
    let text = before + separator + after;
    assert forall|k: int| 0 <= k < before.len() implies !occurs_at(text, separator, k) by {
        if occurs_at(text, separator, k) {
            assert(text.skip(k).subrange(0, 1)[0] == separator[0]);
            assert(before[k] == separator[0]);
        }
    }
    lemma_split_once_first(before, separator, after);
}

/// Text that does not hold a character does not hold it as a pattern.
pub proof fn lemma_absent_character(text: Seq<char>, pattern: Seq<char>)
    requires
        pattern.len() == 1,
        !text.contains(pattern[0]),
    ensures
        !contains_text(text, pattern),
{
    assert forall|k: int| 0 <= k <= text.len() implies !occurs_at(text, pattern, k) by {
        if occurs_at(text, pattern, k) {
            assert(text.skip(k).subrange(0, 1)[0] == pattern[0]);
            assert(text[k] == pattern[0]);
        }
    }
    lemma_position_none(text, pattern);
}

/// A line end at the end of a line is stripped with what else is stripped,
/// and a line that ends with neither a carriage return nor a line feed is
/// left as it is.
pub proof fn lemma_strip_line_end(line: Seq<char>)
    ensures
        strip_line_end(line + "\r\n"@) == strip_line_end(line),
        line.len() > 0 && line.last() != '\r' && line.last() != '\n' ==> strip_line_end(line)
            == line,
        strip_line_end("\r\n"@).len() == 0,
{
    reveal_strlit("\r\n");
    reveal_with_fuel(strip_line_end, 3);
    let with_end = line + "\r\n"@;
    assert(with_end.drop_last() =~= line.push('\r'));
    assert(line.push('\r').drop_last() =~= line);
    assert("\r\n"@.drop_last().drop_last() =~= Seq::<char>::empty());
}

/// Appending a digit to a run of digits multiplies by ten and adds.
pub proof fn lemma_digits_value_push(digits: Seq<char>, c: char)
    ensures
        digits_value(digits.push(c)) == digits_value(digits) * 10 + digit_value(c),
{
    assert(digits.push(c).drop_last() =~= digits);
}

/// The decimal text of a number consists of digits only, and at least one.
pub proof fn lemma_decimal_text_digits(n: nat)
    ensures
        decimal_text(n).len() > 0,
        all_digits(decimal_text(n)),
        decimal_text(n)[0] != '+',
    decreases n,
{
    if n >= 10 {
        lemma_decimal_text_digits(n / 10);
    }
}

/// The digits of a number's decimal text are worth that number.
pub proof fn lemma_decimal_text_value(n: nat)
    ensures
        digits_value(decimal_text(n)) == n,
    decreases n,
{
    if n < 10 {
        assert(decimal_text(n).drop_last() =~= Seq::<char>::empty());
        assert(digits_value(Seq::<char>::empty()) == 0);
    } else {
        lemma_decimal_text_value(n / 10);
        lemma_digits_value_push(decimal_text(n / 10), digit_char(n % 10));
    }
}

/// Writing a number in decimal and reading the text back gives the number.
pub proof fn lemma_decimal_round_trip(n: nat)
    ensures
        decimal_of(decimal_text(n)) == Some(n),
{
    lemma_decimal_text_digits(n);
    lemma_decimal_text_value(n);
}

/// UTF-8 encodes a concatenation piece by piece.
pub proof fn lemma_utf8_concat(a: Seq<char>, b: Seq<char>)
    ensures
        encode_utf8(a + b) == encode_utf8(a) + encode_utf8(b),
    decreases a.len(),
{
    if a.len() == 0 {
        assert(a + b =~= b);
        assert(encode_utf8(a) + encode_utf8(b) =~= encode_utf8(b));
    } else {
        lemma_utf8_concat(a.drop_first(), b);
        assert((a + b).drop_first() =~= a.drop_first() + b);
        assert(encode_utf8(a + b) =~= encode_utf8(a) + encode_utf8(b));
    }
}

/// The characters of a string, in order.
pub fn chars_of(text: &str) -> (chars: Vec<char>)
    ensures
        chars@ == text@,
{
    let mut chars: Vec<char> = Vec::new();
    let source = text.chars();
    for c in it: source
        invariant
            it.seq() == text@,
            chars@ == text@.take(it.index() as int),
    {
        chars.push(c);
    }
    chars
}

/// A string made of the given characters.
pub fn text_of(chars: &[char]) -> (text: String)
    ensures
        text@ == chars@,
{
    let mut text = String::new();
    let mut i: usize = 0;
    while i < chars.len()
        invariant
            i <= chars.len(),
            text@ == chars@.take(i as int),
        decreases chars.len() - i,
    {
        text.push(chars[i]);
        assert(chars@.take(i + 1) =~= chars@.take(i as int).push(chars@[i as int]));
        i += 1;
    }
    assert(chars@.take(chars.len() as int) =~= chars@);
    text
}

/// Whether two strings hold the same text.
pub fn same_text(a: &str, b: &str) -> (same: bool)
    ensures
        same == (a@ == b@),
{
    broadcast use encode_utf8_decode_utf8;

    let x = a.as_bytes();
    let y = b.as_bytes();
    if x.len() != y.len() {
        return false;
    }
    let mut i: usize = 0;
    while i < x.len()
        invariant
            i <= x.len(),
            x.len() == y.len(),
            x@ == encode_utf8(a@),
            y@ == encode_utf8(b@),
            forall|k: int| 0 <= k < i ==> x@[k] == y@[k],
        decreases x.len() - i,
    {
        if x[i] != y[i] {
            return false;
        }
        i += 1;
    }
    assert(x@ =~= y@);
    assert(decode_utf8(encode_utf8(a@)) == a@);
    assert(decode_utf8(encode_utf8(b@)) == b@);
    true
}

/// Whether `text` begins with the characters of `prefix`.
fn has_prefix(text: &[char], prefix: &[char]) -> (found: bool)
    ensures
        found == prefix@.is_prefix_of(text@),
{
    if prefix.len() > text.len() {
        return false;
    }
    let mut i: usize = 0;
    while i < prefix.len()
        invariant
            i <= prefix.len() <= text.len(),
            forall|k: int| 0 <= k < i ==> prefix@[k] == text@[k],
        decreases prefix.len() - i,
    {
        if prefix[i] != text[i] {
            assert(text@.subrange(0, prefix@.len() as int)[i as int] != prefix@[i as int]);
            return false;
        }
        i += 1;
    }
    assert(prefix@ =~= text@.subrange(0, prefix@.len() as int));
    true
}

/// Whether `text` begins with `prefix`.
pub fn starts_with(text: &[char], prefix: &str) -> (found: bool)
    ensures
        found == prefix@.is_prefix_of(text@),
{
    let prefix = chars_of(prefix);
    has_prefix(text, prefix.as_slice())
}

/// Whether `text` is exactly `word`.
pub fn spells(text: &[char], word: &str) -> (same: bool)
    ensures
        same == (text@ == word@),
{
    let word = chars_of(word);
    let same = text.len() == word.len() && has_prefix(text, word.as_slice());
    proof {
        if same {
            assert(text@ =~= word@);
        }
        if text@ == word@ {
            assert(text@.subrange(0, text@.len() as int) =~= text@);
        }
    }
    same
}

/// Where the characters of `pattern` first occur in `text`.
fn find_chars(text: &[char], pattern: &[char]) -> (at: Option<usize>)
    ensures
        match at {
            Some(i) => position(text@, pattern@) == Some(i as int) && i + pattern@.len()
                <= text@.len(),
            None => position(text@, pattern@) == None::<int>,
        },
{
    let mut i: usize = 0;
    while i < text.len()
        invariant
            i <= text.len(),
            forall|k: int| 0 <= k < i ==> !occurs_at(text@, pattern@, k),
        decreases text.len() - i,
    {
        let rest = slice_subrange(text, i, text.len());
        assert(rest@ =~= text@.skip(i as int));
        if has_prefix(rest, pattern) {
            proof {
                lemma_position_is(text@, pattern@, i as int);
            }
            return Some(i);
        }
        i += 1;
    }
    let rest = slice_subrange(text, i, text.len());
    assert(rest@ =~= text@.skip(i as int));
    if has_prefix(rest, pattern) {
        proof {
            lemma_position_is(text@, pattern@, i as int);
        }
        return Some(i);
    }
    proof {
        lemma_position_none(text@, pattern@);
    }
    None
}

/// Where `pattern` first occurs in `text`.
pub fn find(text: &[char], pattern: &str) -> (at: Option<usize>)
    ensures
        match at {
            Some(i) => position(text@, pattern@) == Some(i as int),
            None => position(text@, pattern@) == None::<int>,
        },
{
    let pattern = chars_of(pattern);
    find_chars(text, pattern.as_slice())
}

/// `text` cut at the first occurrence of `separator`: what stands before it
/// and what stands after it.
pub fn cut<'a>(text: &'a [char], separator: &str) -> (parts: Option<(&'a [char], &'a [char])>)
    ensures
        match parts {
            Some((before, after)) => split_once(text@, separator@) == Some((before@, after@)),
            None => split_once(text@, separator@) == None::<(Seq<char>, Seq<char>)>,
        },
{
    let wanted = chars_of(separator);
    let wanted = wanted.as_slice();
    match find_chars(text, wanted) {
        Some(i) => {
            let end = text.len();
            let before = slice_subrange(text, 0, i);
            let after = slice_subrange(text, i + wanted.len(), end);
            assert(before@ =~= text@.take(i as int));
            assert(after@ =~= text@.skip(i + separator@.len()));
            Some((before, after))
        },
        None => None,
    }
}

/// The part of `raw` that stands before its trailing carriage returns and
/// line feeds.
pub fn trim_line_end(raw: &[char]) -> (line: &[char])
    ensures
        line@ == strip_line_end(raw@),
{
    let mut end: usize = raw.len();
    assert(raw@.take(raw.len() as int) =~= raw@);
    while end > 0 && (raw[end - 1] == '\r' || raw[end - 1] == '\n')
        invariant
            end <= raw.len(),
            strip_line_end(raw@) == strip_line_end(raw@.take(end as int)),
        decreases end,
    {
        assert(raw@.take(end as int).drop_last() =~= raw@.take(end - 1));
        end -= 1;
    }
    slice_subrange(raw, 0, end)
}

/// The decimal digit for `d`.
fn digit_of(d: usize) -> (c: char)
    requires
        d < 10,
    ensures
        c == digit_char(d as nat),
{
    (48u8 + d as u8) as char
}

/// Appends `n` in decimal to `out`.
fn push_decimal(out: &mut String, n: usize)
    ensures
        final(out)@ == old(out)@ + decimal_text(n as nat),
    decreases n,
{
    if n >= 10 {
        push_decimal(out, n / 10);
    }
    out.push(digit_of(n % 10));
    proof {
        if n >= 10 {
            assert(final(out)@ =~= old(out)@ + decimal_text(n as nat));
        } else {
            assert(final(out)@ =~= old(out)@ + decimal_text(n as nat));
        }
    }
}

/// `n` written in decimal.
pub fn format_decimal(n: usize) -> (text: String)
    ensures
        text@ == decimal_text(n as nat),
{
    let mut text = String::new();
    push_decimal(&mut text, n);
    assert(Seq::<char>::empty() + decimal_text(n as nat) =~= decimal_text(n as nat));
    text
}

/// The number that `text` denotes in decimal, held at `usize::MAX` where it
/// is larger than that. `None` where `text` is no decimal number.
pub fn parse_decimal(text: &[char]) -> (value: Option<usize>)
    ensures
        match decimal_of(text@) {
            Some(n) => value == Some(
                if n <= usize::MAX {
                    n as usize
                } else {
                    usize::MAX
                },
            ),
            None => value == None::<usize>,
        },
{
    let start: usize = if text.len() > 0 && text[0] == '+' {
        1
    } else {
        0
    };
    let digits = slice_subrange(text, start, text.len());
    assert(digits@ =~= decimal_digits(text@));
    if digits.len() == 0 {
        return None;
    }
    let mut value: usize = 0;
    let mut exact = true;
    let mut i: usize = 0;
    while i < digits.len()
        invariant
            i <= digits.len(),
            0 < digits.len(),
            digits@ == decimal_digits(text@),
            all_digits(digits@.take(i as int)),
            exact ==> value == digits_value(digits@.take(i as int)),
            !exact ==> digits_value(digits@.take(i as int)) > usize::MAX,
        decreases digits.len() - i,
    {
        let c = digits[i];
        if !('0' <= c && c <= '9') {
            assert(!is_digit(digits@[i as int]));
            return None;
        }
        let d: usize = (c as u32 - 48) as usize;
        proof {
            assert(digits@.take(i + 1) =~= digits@.take(i as int).push(c));
            lemma_digits_value_push(digits@.take(i as int), c);
        }
        if exact {
            match value.checked_mul(10) {
                Some(tens) => match tens.checked_add(d) {
                    Some(next) => {
                        value = next;
                    },
                    None => {
                        exact = false;
                    },
                },
                None => {
                    exact = false;
                },
            }
        }
        i += 1;
    }
    assert(digits@.take(digits.len() as int) =~= digits@);
    if exact {
        Some(value)
    } else {
        Some(usize::MAX)
    }
}

/// The text whose characters have the code points of the given bytes.
pub fn decode_latin1(bytes: &[u8]) -> (text: String)
    ensures
        text@ == latin1(bytes@),
{
    let mut text = String::new();
    let mut i: usize = 0;
    while i < bytes.len()
        invariant
            i <= bytes.len(),
            text@.len() == i,
            forall|k: int| 0 <= k < i ==> text@[k] == bytes@[k] as char,
        decreases bytes.len() - i,
    {
        text.push(bytes[i] as char);
        i += 1;
    }
    assert(text@ =~= latin1(bytes@));
    text
}

/// The number of bytes that `text` takes in UTF-8.
pub fn byte_len(text: &str) -> (n: usize)
    ensures
        n == utf8_len(text@),
{
    text.as_bytes().len()
}

} // verus!
