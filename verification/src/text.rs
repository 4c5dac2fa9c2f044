//! Reading text: white space, decimal numbers and substrings; errors and log lines.

use vstd::prelude::*;

verus! {

/// Whether `c` has the Unicode property `White_Space`.
pub open spec fn white_space(c: char) -> bool {
    ||| '\u{9}' <= c <= '\u{d}'
    ||| c == ' '
    ||| c == '\u{85}'
    ||| c == '\u{a0}'
    ||| c == '\u{1680}'
    ||| '\u{2000}' <= c <= '\u{200a}'
    ||| c == '\u{2028}'
    ||| c == '\u{2029}'
    ||| c == '\u{202f}'
    ||| c == '\u{205f}'
    ||| c == '\u{3000}'
}

/// Whether `text` holds nothing but white space.
pub open spec fn blank(text: Seq<char>) -> bool {
    forall|i: int| 0 <= i < text.len() ==> white_space(#[trigger] text[i])
}

/// Whether `c` is one of the ten ASCII digits.
pub open spec fn digit(c: char) -> bool {
    '0' <= c <= '9'
}

/// The number that a sequence of ASCII digits writes down in base ten.
pub open spec fn digits_value(digits: Seq<char>) -> nat
    decreases digits.len(),
{
    if digits.len() == 0 {
        0
    } else {
        10 * digits_value(digits.drop_last()) + (digits.last() as nat - '0' as nat) as nat
    }
}

/// `text` without its leading plus sign, if it has one.
pub open spec fn without_plus(text: Seq<char>) -> Seq<char> {
    if text.len() > 0 && text[0] == '+' {
        text.skip(1)
    } else {
        text
    }
}

/// The number that `text` writes down: an optional plus sign, and one or more
/// ASCII digits whose value fits in 64 bits. `None` for every other text.
pub open spec fn decimal_u64(text: Seq<char>) -> Option<u64> {
    let digits = without_plus(text);
    if digits.len() > 0 && (forall|i: int| 0 <= i < digits.len() ==> digit(#[trigger] digits[i]))
        && digits_value(digits) <= u64::MAX {
        Some(digits_value(digits) as u64)
    } else {
        None
    }
}

/// Whether `needle` occurs in `text` at position `at`.
pub open spec fn occurs_at(text: Seq<char>, needle: Seq<char>, at: int) -> bool {
    0 <= at && at + needle.len() <= text.len() && text.subrange(at, at + needle.len()) == needle
}

/// Whether `needle` occurs somewhere in `text`.
pub open spec fn contains_text(text: Seq<char>, needle: Seq<char>) -> bool {
    exists|at: int| occurs_at(text, needle, at)
}

/// A result whose error is taken as text.
pub open spec fn result_text(result: Result<(), String>) -> Result<(), Seq<char>> {
    match result {
        Ok(_) => Ok(()),
        Err(e) => Err(e@),
    }
}

/// The characters of `text`.
pub fn characters(text: &str) -> (chars: Vec<char>)
    ensures
        chars@ == text@,
{
    let mut chars: Vec<char> = Vec::new();
    for c in iter: text.chars()
        invariant
            iter.seq() == text@,
            chars@ == text@.take(iter.index() as int),
    {
        proof {
            assert(text@.take(iter.index() + 1) == text@.take(iter.index() as int).push(c));
        }
        chars.push(c);
    }
    assert(text@.take(text@.len() as int) == text@);
    chars
}

/// What is logged where the environment does not say otherwise: messages of this
/// level, and graver ones.
pub const DEFAULT_LOG_FILTER: &'static str = "info";

/// How a log message reads: who reports it, how grave it is, and what it says, on a
/// line of its own.
pub fn log_line(program: &str, level: &str, message: &str) -> (line: String)
    ensures
        line@ == program@ + ": "@ + level@ + ": "@ + message@ + "\n"@,
{
    program.to_owned().concat(": ").concat(level).concat(": ").concat(message).concat("\n")
}

/// A copy of a list of texts.
pub fn copy_texts(texts: &[String]) -> (copy: Vec<String>)
    ensures
        copy@ == texts@,
{
    let mut copy: Vec<String> = Vec::new();
    let mut i: usize = 0;
    while i < texts.len()
        invariant
            i <= texts.len(),
            copy@ == texts@.take(i as int),
        decreases texts.len() - i,
    {
        copy.push(texts[i].clone());
        i = i + 1;
        assert(texts@.take(i as int) == texts@.take(i - 1).push(texts@[i - 1]));
    }
    assert(texts@.take(i as int) == texts@);
    copy
}

/// A copy of a result.
pub fn copy_result(result: &Result<(), String>) -> (copy: Result<(), String>)
    ensures
        result_text(copy) == result_text(*result),
        match (*result, copy) {
            (Ok(_), Ok(_)) => true,
            (Err(e), Err(c)) => c@ == e@,
            _ => false,
        },
{
    match result {
        Ok(_) => Ok(()),
        Err(e) => Err(e.clone()),
    }
}

/// Tells whether `c` is white space.
pub fn is_white_space(c: char) -> (yes: bool)
    ensures
        yes == white_space(c),
{
    ('\u{9}' <= c && c <= '\u{d}') || c == ' ' || c == '\u{85}' || c == '\u{a0}' || c == '\u{1680}'
        || ('\u{2000}' <= c && c <= '\u{200a}') || c == '\u{2028}' || c == '\u{2029}' || c
        == '\u{202f}' || c == '\u{205f}' || c == '\u{3000}'
}

/// Tells whether nothing is left of `text` once white space is trimmed off.
pub fn is_blank(text: &str) -> (yes: bool)
    ensures
        yes == blank(text@),
{
    for c in iter: text.chars()
        invariant
            iter.seq() == text@,
            forall|i: int| 0 <= i < iter.index() ==> white_space(#[trigger] text@[i]),
    {
        if !is_white_space(c) {
            assert(!white_space(text@[iter.index() as int]));
            return false;
        }
    }
    true
}

/// More digits never write down a smaller number.
proof fn lemma_digits_value_grows(digits: Seq<char>, n: int)
    requires
        0 <= n <= digits.len(),
    ensures
        digits_value(digits.take(n)) <= digits_value(digits),
    decreases digits.len() - n,
{
    if n < digits.len() {
        assert(digits.take(n + 1).drop_last() == digits.take(n));
        lemma_digits_value_grows(digits, n + 1);
    } else {
        assert(digits.take(n) == digits);
    }
}

/// Reads a decimal number.
pub fn parse_u64(text: &str) -> (number: Option<u64>)
    ensures
        number == decimal_u64(text@),
{
    let chars: Vec<char> = characters(text);
    let start: usize = if chars.len() > 0 && chars[0] == '+' {
        1
    } else {
        0
    };
    let ghost digits = without_plus(text@);
    assert(digits == text@.skip(start as int));
    if start == chars.len() {
        return None;
    }
    let mut value: u64 = 0;
    let mut i: usize = start;
    while i < chars.len()
        invariant
            chars@ == text@,
            start <= i <= chars.len(),
            digits == text@.skip(start as int),
            digits == without_plus(text@),
            forall|k: int| 0 <= k < i - start ==> digit(#[trigger] digits[k]),
            value == digits_value(digits.take(i - start)),
        decreases chars.len() - i,
    {
        let c: char = chars[i];
        assert(digits[i - start] == c);
        if !('0' <= c && c <= '9') {
            return None;
        }
        let d: u64 = (c as u32 - '0' as u32) as u64;
        proof {
            assert(digits.take(i - start + 1).drop_last() == digits.take(i - start));
            assert(digits_value(digits.take(i - start + 1)) == 10 * value + d);
            lemma_digits_value_grows(digits, i - start + 1);
        }
        if value > (u64::MAX - d) / 10 {
            return None;
        }
        value = value * 10 + d;
        i = i + 1;
    }
    assert(digits.take(digits.len() as int) == digits);
    Some(value)
}

/// Tells whether `needle` occurs in `text`.
pub fn contains(text: &str, needle: &str) -> (yes: bool)
    ensures
        yes == contains_text(text@, needle@),
{
    let haystack: Vec<char> = characters(text);
    let pattern: Vec<char> = characters(needle);
    if pattern.len() > haystack.len() {
        return false;
    }
    let last: usize = haystack.len() - pattern.len();
    let mut at: usize = 0;
    loop
        invariant
            haystack@ == text@,
            pattern@ == needle@,
            last == haystack.len() - pattern.len(),
            at <= last,
            forall|k: int| 0 <= k < at ==> !occurs_at(text@, needle@, k),
        decreases last - at,
    {
        let mut matched: usize = 0;
        while matched < pattern.len() && haystack[at + matched] == pattern[matched]
            invariant
                at + pattern.len() <= haystack.len(),
                matched <= pattern.len(),
                forall|k: int| 0 <= k < matched ==> #[trigger] pattern@[k] == haystack@[at + k],
            decreases pattern.len() - matched,
        {
            matched = matched + 1;
        }
        if matched == pattern.len() {
            assert(text@.subrange(at as int, at + needle@.len()) == needle@);
            assert(occurs_at(text@, needle@, at as int));
            return true;
        }
        assert(!occurs_at(text@, needle@, at as int)) by {
            let found = text@.subrange(at as int, at + needle@.len());
            assert(found[matched as int] != needle@[matched as int]);
        }
        if at == last {
            return false;
        }
        at = at + 1;
    }
}

/// Text is blank if and only if both of its parts are, wherever it is cut in two. One
/// character is blank if it is white space, and no character at all is blank.
pub proof fn law_blank_in_parts(a: Seq<char>, b: Seq<char>, c: char)
    ensures
        blank(a + b) <==> blank(a) && blank(b),
        blank(seq![c]) <==> white_space(c),
        blank(Seq::empty()),
{
    let whole = a + b;
    if blank(whole) {
        assert forall|i: int| 0 <= i < a.len() implies white_space(#[trigger] a[i]) by {
            assert(whole[i] == a[i]);
        }
        assert forall|i: int| 0 <= i < b.len() implies white_space(#[trigger] b[i]) by {
            assert(whole[a.len() + i] == b[i]);
        }
    }
    assert(seq![c][0] == c);
}

/// Of the ASCII characters, the space, the tabs and the ends of lines and pages are
/// white space.
pub proof fn law_white_space_in_ascii(c: char)
    requires
        c <= '\u{7f}',
    ensures
        white_space(c) <==> c == '\t' || c == '\n' || c == '\u{b}' || c == '\u{c}' || c == '\r' || c
            == ' ',
{
}

/// One text occurs in another if and only if that consists of something, the text,
/// and something else.
pub proof fn law_contains_text(text: Seq<char>, needle: Seq<char>)
    ensures
        contains_text(text, needle) <==> exists|before: Seq<char>, after: Seq<char>|
            text == #[trigger] (before + needle + after),
{
    if contains_text(text, needle) {
        let at = choose|at: int| occurs_at(text, needle, at);
        let before = text.take(at);
        let after = text.skip(at + needle.len());
        assert(text.subrange(at, at + needle.len()) == needle);
        assert(text =~= before + text.subrange(at, at + needle.len()) + after);
        assert(text == before + needle + after);
    }
    if exists|before: Seq<char>, after: Seq<char>| text == #[trigger] (before + needle + after) {
        let (before, after) = choose|before: Seq<char>, after: Seq<char>|
            text == #[trigger] (before + needle + after);
        let at = before.len() as int;
        assert(text.subrange(at, at + needle.len()) =~= needle);
        assert(occurs_at(text, needle, at));
    }
}

/// A result as text is an error with the same text, or no error.
pub proof fn law_result_text(result: Result<(), String>)
    ensures
        result_text(result) is Ok <==> result is Ok,
        result is Err ==> result_text(result)->Err_0 == result->Err_0@,
{
}

proof fn lemma_all_digits_push(text: Seq<char>, c: char)
    requires
        digit(c),
        text.len() > 0,
        text[0] == '+' || digit(text[0]),
    ensures
        without_plus(text.push(c)) == without_plus(text).push(c),
        (forall|i: int|
            0 <= i < without_plus(text).len() ==> digit(#[trigger] without_plus(text)[i])) <==> (
        forall|i: int|
            0 <= i < without_plus(text.push(c)).len() ==> digit(
                #[trigger] without_plus(text.push(c))[i],
            )),
        digits_value(without_plus(text.push(c))) == 10 * digits_value(without_plus(text)) + (
        c as nat - '0' as nat),
{
    let short = without_plus(text);
    let long = without_plus(text.push(c));
    assert(long =~= short.push(c));
    assert(long.drop_last() =~= short);
    if forall|i: int| 0 <= i < short.len() ==> digit(#[trigger] short[i]) {
        assert forall|i: int| 0 <= i < long.len() implies digit(#[trigger] long[i]) by {
            if i < short.len() {
                assert(long[i] == short[i]);
            }
        }
    }
    if forall|i: int| 0 <= i < long.len() ==> digit(#[trigger] long[i]) {
        assert forall|i: int| 0 <= i < short.len() implies digit(#[trigger] short[i]) by {
            assert(long[i] == short[i]);
        }
    }
}

/// One digit writes down its own value.
pub proof fn law_one_digit(c: char)
    requires
        '0' <= c <= '9',
    ensures
        decimal_u64(seq![c]) == Some((c as u64 - '0' as u64) as u64),
{
    let one = seq![c];
    assert(without_plus(one) == one);
    assert(one.drop_last() == Seq::<char>::empty());
    assert(digits_value(one.drop_last()) == 0);
    assert(one.last() == c);
    assert(digits_value(one) == c as nat - '0' as nat);
}

/// One more digit makes a number ten times as large and adds its value, as long as
/// that fits in 64 bits.
pub proof fn law_one_more_digit(text: Seq<char>, number: u64, c: char)
    requires
        '0' <= c <= '9',
        decimal_u64(text) == Some(number),
    ensures
        10 * number + (c as int - '0' as int) <= 0xffff_ffff_ffff_ffff ==> decimal_u64(
            text.push(c),
        ) == Some((10 * number + (c as int - '0' as int)) as u64),
        10 * number + (c as int - '0' as int) > 0xffff_ffff_ffff_ffff ==> decimal_u64(text.push(c))
            is None,
{
    let digits = without_plus(text);
    assert(text.len() > 0);
    if text[0] != '+' {
        assert(digit(digits[0]));
    }
    lemma_all_digits_push(text, c);
}

/// A number that does not fit in 64 bits does not fit with one more digit either.
pub proof fn law_too_large_stays_too_large(text: Seq<char>, c: char)
    requires
        '0' <= c <= '9',
        text.len() > 0,
        forall|i: int| 0 <= i < text.len() ==> '0' <= #[trigger] text[i] <= '9',
        decimal_u64(text) is None,
    ensures
        decimal_u64(text.push(c)) is None,
{
    assert('0' <= text[0] <= '9');
    assert(without_plus(text) == text);
    assert forall|i: int| 0 <= i < text.len() implies digit(#[trigger] text[i]) by {}
    lemma_all_digits_push(text, c);
}

/// A plus sign before digits changes nothing.
pub proof fn law_plus_changes_nothing(text: Seq<char>)
    requires
        text.len() > 0 ==> text[0] != '+',
    ensures
        decimal_u64(seq!['+'] + text) == decimal_u64(text),
{
    assert((seq!['+'] + text).skip(1) == text);
}

/// No number is written down by text without a digit, nor by text that holds anything
/// but digits behind its first character, or begins with neither a digit nor a plus
/// sign.
pub proof fn law_other_text_is_no_number(text: Seq<char>, i: int)
    ensures
        decimal_u64(Seq::empty()) is None,
        decimal_u64(seq!['+']) is None,
        0 < i < text.len() && !('0' <= text[i] <= '9') ==> decimal_u64(text) is None,
        text.len() > 0 && text[0] != '+' && !('0' <= text[0] <= '9') ==> decimal_u64(text) is None,
{
    assert(seq!['+'].skip(1) == Seq::<char>::empty());
    if 0 < i < text.len() && !('0' <= text[i] <= '9') {
        let digits = without_plus(text);
        if text[0] == '+' {
            assert(digits[i - 1] == text[i]);
            assert(!digit(digits[i - 1]));
        } else {
            assert(!digit(digits[i]));
        }
    }
    if text.len() > 0 && text[0] != '+' && !('0' <= text[0] <= '9') {
        assert(!digit(without_plus(text)[0]));
    }
}

} // verus!
