//! Text: what the rest of the crate asks of strings, over their sequences of characters.

use vstd::prelude::*;

verus! {

/// `String::push` of std appends one character to the end of the string.
pub assume_specification[ String::push ](s: &mut String, c: char)
    ensures
        final(s)@ == old(s)@.push(c),
;

/// The characters of a text, in order.
pub fn chars_of(text: &str) -> (chars: Vec<char>)
    ensures
        chars@ == text@,
{
    let mut chars: Vec<char> = Vec::new();
    for c in it: text.chars()
        invariant
            chars@ == it.seq().take(it.index() as int),
            it.seq() == text@,
    {
        chars.push(c);
        assert(it.seq().take(it.index() + 1) == it.seq().take(it.index() as int).push(c));
    }
    assert(text@.take(text@.len() as int) == text@);
    chars
}

/// The text made of a run of characters.
pub fn text_of(chars: &[char]) -> (text: String)
    ensures
        text@ == chars@,
{
    let mut text = String::new();
    let mut i: usize = 0;
    while i < chars.len()
        invariant
            i <= chars@.len(),
            text@ == chars@.take(i as int),
        decreases chars@.len() - i,
    {
        text.push(chars[i]);
        assert(chars@.take(i + 1) == chars@.take(i as int).push(chars@[i as int]));
        i += 1;
    }
    assert(chars@.take(i as int) == chars@);
    text
}


/// `part` stands in `text`, starting at the character `at`.
pub open spec fn occurs_at(text: Seq<char>, part: Seq<char>, at: int) -> bool {
    &&& 0 <= at
    &&& at + part.len() <= text.len()
    &&& text.subrange(at, at + part.len()) == part
}

/// `part` stands somewhere in `text`.
pub open spec fn contains_text(text: Seq<char>, part: Seq<char>) -> bool {
    exists|at: int| occurs_at(text, part, at)
}

/// `text` begins with `prefix`.
pub open spec fn has_prefix(text: Seq<char>, prefix: Seq<char>) -> bool {
    occurs_at(text, prefix, 0)
}

/// Whether `part` stands in `text` at the character `at`.
fn chars_occur_at(text: &Vec<char>, part: &Vec<char>, at: usize) -> (found: bool)
    requires
        at <= text@.len(),
    ensures
        found == occurs_at(text@, part@, at as int),
{
    if part.len() > text.len() - at {
        return false;
    }
    let mut i: usize = 0;
    while i < part.len()
        invariant
            i <= part@.len(),
            at + part@.len() <= text.len(),
            forall|k: int| 0 <= k < i ==> text@[at + k] == part@[k],
        decreases part@.len() - i,
    {
        if text[at + i] != part[i] {
            assert(text@.subrange(at as int, at + part@.len())[i as int] != part@[i as int]);
            return false;
        }
        i += 1;
    }
    assert(text@.subrange(at as int, at + part@.len()) == part@);
    true
}

/// Whether `part` stands somewhere in `text`.
pub fn text_contains(text: &str, part: &str) -> (found: bool)
    ensures
        found == contains_text(text@, part@),
{
    let chars = chars_of(text);
    let wanted = chars_of(part);
    let mut at: usize = 0;
    while at < chars.len()
        invariant
            at <= chars@.len(),
            chars@ == text@,
            wanted@ == part@,
            forall|k: int| 0 <= k < at ==> !occurs_at(text@, part@, k),
        decreases chars@.len() - at,
    {
        if chars_occur_at(&chars, &wanted, at) {
            return true;
        }
        at += 1;
    }
    chars_occur_at(&chars, &wanted, at)
}

/// Whether `text` begins with `prefix`.
pub fn text_starts_with(text: &str, prefix: &str) -> (found: bool)
    ensures
        found == has_prefix(text@, prefix@),
{
    let chars = chars_of(text);
    let wanted = chars_of(prefix);
    chars_occur_at(&chars, &wanted, 0)
}

/// What is left of `text` behind `prefix`, where it begins with it.
pub open spec fn without_prefix(text: Seq<char>, prefix: Seq<char>) -> Option<Seq<char>> {
    if has_prefix(text, prefix) {
        Some(text.skip(prefix.len() as int))
    } else {
        None
    }
}

/// What is left of `text` behind `prefix`, where it begins with it.
pub fn strip_text_prefix(text: &str, prefix: &str) -> (rest: Option<String>)
    ensures
        rest.deep_view() == without_prefix(text@, prefix@),
{
    let chars = chars_of(text);
    let wanted = chars_of(prefix);
    if chars_occur_at(&chars, &wanted, 0) {
        Some(text_of(vstd::slice::slice_subrange(chars.as_slice(), wanted.len(), chars.len())))
    } else {
        None
    }
}

/// Whether two texts hold the same characters.
pub fn text_is(text: &str, other: &str) -> (same: bool)
    ensures
        same == (text@ == other@),
{
    text.to_owned() == other.to_owned()
}

/// Whether an optional text is there and is `wanted`.
pub fn optional_text_is(text: &Option<String>, wanted: &str) -> (same: bool)
    ensures
        same == (text.deep_view() == Some(wanted@)),
{
    match text {
        Some(text) => text_is(text.as_str(), wanted),
        None => false,
    }
}

/// The character is white space: it has the Unicode property White_Space.
pub open spec fn white_space(c: char) -> bool {
    ||| '\t' <= c <= '\r'
    ||| c == ' '
    ||| c == '\u{85}'
    ||| c == '\u{a0}'
    ||| c == '\u{1680}'
    ||| '\u{2000}' <= c <= '\u{200a}'
    ||| c == '\u{2028}'
    ||| c == '\u{2029}'
    ||| c == '\u{202f}'
    ||| c == '\u{205f}'
    ||| c == '\u{3000}'
}

/// Whether a character is white space.
fn is_white_space(c: char) -> (white: bool)
    ensures
        white == white_space(c),
{
    ('\t' <= c && c <= '\r') || c == ' ' || c == '\u{85}' || c == '\u{a0}' || c == '\u{1680}' || (
    '\u{2000}' <= c && c <= '\u{200a}') || c == '\u{2028}' || c == '\u{2029}' || c == '\u{202f}'
        || c == '\u{205f}' || c == '\u{3000}'
}

/// A text without the white space it begins with.
pub open spec fn trim_start(text: Seq<char>) -> Seq<char>
    decreases text.len(),
{
    if text.len() > 0 && white_space(text[0]) {
        trim_start(text.skip(1))
    } else {
        text
    }
}

/// A text without the white space it ends with.
pub open spec fn trim_end(text: Seq<char>) -> Seq<char>
    decreases text.len(),
{
    if text.len() > 0 && white_space(text.last()) {
        trim_end(text.drop_last())
    } else {
        text
    }
}

/// A text without the white space around it.
pub open spec fn trimmed(text: Seq<char>) -> Seq<char> {
    trim_end(trim_start(text))
}

/// A text without the white space around it.
pub fn trim_text(text: &str) -> (inner: String)
    ensures
        inner@ == trimmed(text@),
{
    let chars = chars_of(text);
    let mut start: usize = 0;
    assert(chars@.skip(0) == chars@);
    while start < chars.len() && is_white_space(chars[start])
        invariant
            start <= chars@.len(),
            trim_start(chars@.skip(start as int)) == trim_start(chars@),
        decreases chars@.len() - start,
    {
        assert(chars@.skip(start as int).skip(1) == chars@.skip(start + 1));
        start += 1;
    }
    let ghost tail = chars@.skip(start as int);
    assert(trim_start(chars@) == tail);
    let mut end: usize = chars.len();
    assert(tail == chars@.subrange(start as int, end as int));
    while start < end && is_white_space(chars[end - 1])
        invariant
            start <= end <= chars@.len(),
            trim_end(chars@.subrange(start as int, end as int)) == trim_end(tail),
        decreases end - start,
    {
        assert(chars@.subrange(start as int, end as int).drop_last() == chars@.subrange(
            start as int,
            end - 1,
        ));
        end -= 1;
    }
    text_of(vstd::slice::slice_subrange(chars.as_slice(), start, end))
}

/// How many characters a text has before its first white space.
pub open spec fn word_len(text: Seq<char>) -> nat
    decreases text.len(),
{
    if text.len() > 0 && !white_space(text[0]) {
        1 + word_len(text.skip(1))
    } else {
        0
    }
}

pub proof fn lemma_word_len(text: Seq<char>)
    ensures
        word_len(text) <= text.len(),
    decreases text.len(),
{
    if text.len() > 0 && !white_space(text[0]) {
        lemma_word_len(text.skip(1));
    }
}

pub proof fn lemma_trim_start_len(text: Seq<char>)
    ensures
        trim_start(text).len() <= text.len(),
        trim_start(text).len() > 0 ==> !white_space(trim_start(text)[0]),
    decreases text.len(),
{
    if text.len() > 0 && white_space(text[0]) {
        lemma_trim_start_len(text.skip(1));
    }
}

/// The words of a text: its runs of characters between white space, in order.
pub open spec fn words(text: Seq<char>) -> Seq<Seq<char>>
    decreases text.len(),
{
    let rest = trim_start(text);
    if rest.len() == 0 {
        seq![]
    } else {
        proof {
            lemma_trim_start_len(text);
            lemma_word_len(rest);
            lemma_word_len(rest.skip(1));
        }
        seq![rest.take(word_len(rest) as int)] + words(rest.skip(word_len(rest) as int))
    }
}

/// The words of a text.
pub fn split_words(text: &str) -> (parts: Vec<String>)
    ensures
        parts.deep_view() == words(text@),
{
    let chars = chars_of(text);
    let mut parts: Vec<String> = Vec::new();
    let mut at: usize = 0;
    assert(chars@.skip(0) == chars@);
    assert(parts.deep_view() == Seq::<Seq<char>>::empty());
    loop
        invariant
            at <= chars@.len(),
            words(chars@) == parts.deep_view() + words(chars@.skip(at as int)),
        ensures
            parts.deep_view() == words(chars@),
        decreases chars@.len() - at,
    {
        let ghost from = chars@.skip(at as int);
        let mut start: usize = at;
        while start < chars.len() && is_white_space(chars[start])
            invariant
                at <= start <= chars@.len(),
                from == chars@.skip(at as int),
                trim_start(chars@.skip(start as int)) == trim_start(from),
            decreases chars@.len() - start,
        {
            assert(chars@.skip(start as int).skip(1) == chars@.skip(start + 1));
            start += 1;
        }
        let ghost rest = chars@.skip(start as int);
        assert(trim_start(from) == rest);
        if start == chars.len() {
            assert(words(from) == Seq::<Seq<char>>::empty());
            break;
        }
        let mut end: usize = start;
        while end < chars.len() && !is_white_space(chars[end])
            invariant
                start <= end <= chars@.len(),
                rest == chars@.skip(start as int),
                word_len(rest) == (end - start) + word_len(chars@.skip(end as int)),
            decreases chars@.len() - end,
        {
            assert(chars@.skip(end as int).skip(1) == chars@.skip(end + 1));
            end += 1;
        }
        assert(word_len(rest) == end - start);
        let ghost before = parts.deep_view();
        parts.push(text_of(vstd::slice::slice_subrange(chars.as_slice(), start, end)));
        proof {
            lemma_trim_start_len(from);
            assert(word_len(rest) > 0);
            assert(rest.take(end - start) == chars@.subrange(start as int, end as int));
            assert(rest.skip(end - start) == chars@.skip(end as int));
            assert(parts.deep_view() == before.push(chars@.subrange(start as int, end as int)));
            assert(before + (seq![rest.take(end - start)] + words(chars@.skip(end as int)))
                == parts.deep_view() + words(chars@.skip(end as int)));
        }
        at = end;
    }
    parts
}

/// Every character of the text is an ASCII character.
pub open spec fn ascii_text(text: Seq<char>) -> bool {
    forall|i: int| 0 <= i < text.len() ==> #[trigger] text[i] <= '\u{7f}'
}

/// A character, with the ASCII capital letters turned into small ones.
pub open spec fn ascii_lower_char(c: char) -> char {
    if 'A' <= c <= 'Z' {
        ((c as int) + 32) as char
    } else {
        c
    }
}

/// A text, with its ASCII capital letters turned into small ones.
pub open spec fn ascii_lowercase(text: Seq<char>) -> Seq<char> {
    Seq::new(text.len(), |i: int| ascii_lower_char(text[i]))
}

/// A text, with its ASCII capital letters turned into small ones.
pub fn ascii_lowercase_text(text: &str) -> (lower: String)
    ensures
        lower@ == ascii_lowercase(text@),
{
    let chars = chars_of(text);
    let mut lower = String::new();
    let mut i: usize = 0;
    while i < chars.len()
        invariant
            i <= chars@.len(),
            lower@ == ascii_lowercase(chars@).take(i as int),
        decreases chars@.len() - i,
    {
        let c = chars[i];
        if 'A' <= c && c <= 'Z' {
            let code: u8 = c as u8;
            lower.push((code + 32) as char);
        } else {
            lower.push(c);
        }
        assert(ascii_lowercase(chars@).take(i + 1) == ascii_lowercase(chars@).take(i as int).push(
            ascii_lower_char(c),
        ));
        i += 1;
    }
    assert(ascii_lowercase(chars@).take(i as int) == ascii_lowercase(chars@));
    lower
}

/// `str::to_lowercase` of std: the Unicode lowercase equivalent of a text.
pub uninterp spec fn lowercase(text: Seq<char>) -> Seq<char>;

/// `str::to_lowercase` of std. Its result is a function of the text alone; a text of ASCII
/// characters gets its capital letters turned into small ones and is otherwise kept.
#[verifier::external_body]
pub(crate) fn lowercase_text(text: &str) -> (lower: String)
    ensures
        lower@ == lowercase(text@),
        ascii_text(text@) ==> lower@ == ascii_lowercase(text@),
{
    text.to_lowercase()
}

/// The decimal digit of a number below ten.
pub open spec fn digit_char(digit: nat) -> char {
    (48 + digit) as char
}

/// A number in decimal digits, without leading zeros.
pub open spec fn decimal(number: nat) -> Seq<char>
    decreases number,
{
    if number < 10 {
        seq![digit_char(number)]
    } else {
        decimal(number / 10).push(digit_char(number % 10))
    }
}

/// A number in decimal digits, without leading zeros.
pub fn decimal_text(number: u128) -> (text: String)
    ensures
        text@ == decimal(number as nat),
    decreases number,
{
    let mut text = if number < 10 {
        String::new()
    } else {
        decimal_text(number / 10)
    };
    let digit: u8 = (number % 10) as u8;
    text.push((48 + digit) as char);
    text
}

/// The character is a decimal digit.
pub open spec fn is_digit(c: char) -> bool {
    '0' <= c <= '9'
}

/// The number that a run of decimal digits stands for.
pub open spec fn digits_value(digits: Seq<char>) -> nat
    decreases digits.len(),
{
    if digits.len() == 0 {
        0
    } else {
        digits_value(digits.drop_last()) * 10 + ((digits.last() as int) - 48) as nat
    }
}

/// The text consists of decimal digits, at least one.
pub open spec fn all_digits(text: Seq<char>) -> bool {
    text.len() > 0 && forall|i: int| 0 <= i < text.len() ==> is_digit(#[trigger] text[i])
}

/// The number that a text stands for: decimal digits, at least one, behind an optional plus sign.
pub open spec fn number_in(text: Seq<char>) -> Option<nat> {
    let digits = if text.len() > 0 && text[0] == '+' {
        text.skip(1)
    } else {
        text
    };
    if all_digits(digits) {
        Some(digits_value(digits))
    } else {
        None
    }
}

/// The number that a text stands for, where it is one and fits.
pub fn parse_number(text: &str) -> (number: Option<u64>)
    ensures
        number == (match number_in(text@) {
            Some(value) => if value <= u64::MAX {
                Some(value as u64)
            } else {
                None
            },
            None => None,
        }),
{
    let chars = chars_of(text);
    let start: usize = if chars.len() > 0 && chars[0] == '+' {
        1
    } else {
        0
    };
    let ghost digits = chars@.skip(start as int);
    assert(chars@.skip(0) == chars@);
    if start == chars.len() {
        return None;
    }
    let mut value: u64 = 0;
    let mut over: bool = false;
    let mut i: usize = start;
    assert(digits.take(0) == Seq::<char>::empty());
    while i < chars.len()
        invariant
            start <= i <= chars@.len(),
            digits == chars@.skip(start as int),
            number_in(text@) == (if all_digits(digits) {
                Some(digits_value(digits))
            } else {
                None
            }),
            forall|k: int| 0 <= k < i - start ==> is_digit(#[trigger] digits[k]),
            !over ==> value == digits_value(digits.take(i - start)),
            over ==> digits_value(digits.take(i - start)) > u64::MAX,
        decreases chars@.len() - i,
    {
        let c = chars[i];
        assert(digits[i - start] == c);
        if !('0' <= c && c <= '9') {
            assert(!is_digit(digits[i - start]));
            return None;
        }
        let digit: u64 = (c as u8 - 48) as u64;
        assert(digits.take(i - start + 1).drop_last() == digits.take(i - start));
        assert(digits.take(i - start + 1).last() == c);
        if !over {
            match value.checked_mul(10) {
                Some(tens) => match tens.checked_add(digit) {
                    Some(sum) => {
                        value = sum;
                    },
                    None => {
                        over = true;
                    },
                },
                None => {
                    over = true;
                },
            }
        }
        i += 1;
    }
    assert(digits.take(i - start) == digits);
    if over {
        None
    } else {
        Some(value)
    }
}

/// Texts, one behind the other, with a separator between them.
pub open spec fn joined(parts: Seq<Seq<char>>, separator: Seq<char>) -> Seq<char>
    decreases parts.len(),
{
    if parts.len() == 0 {
        seq![]
    } else if parts.len() == 1 {
        parts[0]
    } else {
        joined(parts.drop_last(), separator) + separator + parts.last()
    }
}

/// Texts, one behind the other, with a separator between them.
pub fn join_texts(parts: &[String], separator: &str) -> (text: String)
    ensures
        text@ == joined(texts(parts@), separator@),
{
    let mut text = String::new();
    let mut i: usize = 0;
    let ghost views = texts(parts@);
    while i < parts.len()
        invariant
            i <= parts@.len(),
            views == texts(parts@),
            text@ == joined(views.take(i as int), separator@),
        decreases parts@.len() - i,
    {
        assert(views.take(i + 1).drop_last() == views.take(i as int));
        if i > 0 {
            text.append(separator);
        }
        text.append(parts[i].as_str());
        assert(text@ == joined(views.take(i + 1), separator@));
        i += 1;
    }
    assert(views.take(i as int) == views);
    text
}

/// The characters of each of a run of strings.
pub open spec fn texts(strings: Seq<String>) -> Seq<Seq<char>> {
    Seq::new(strings.len(), |i: int| strings[i]@)
}

/// How two texts are ordered.
#[derive(Clone, Copy, PartialEq, Eq, Structural, Debug)]
pub enum Order {
    Before,
    Same,
    After,
}

/// The order of two texts, decided by the first character in which they differ; a text comes
/// before those that it is a beginning of.
pub open spec fn text_order(left: Seq<char>, right: Seq<char>) -> Order
    decreases left.len(),
{
    if left.len() == 0 && right.len() == 0 {
        Order::Same
    } else if left.len() == 0 {
        Order::Before
    } else if right.len() == 0 {
        Order::After
    } else if left[0] < right[0] {
        Order::Before
    } else if left[0] > right[0] {
        Order::After
    } else {
        text_order(left.skip(1), right.skip(1))
    }
}

/// The order of two texts.
pub fn order_texts(left: &str, right: &str) -> (order: Order)
    ensures
        order == text_order(left@, right@),
{
    let a = chars_of(left);
    let b = chars_of(right);
    let mut i: usize = 0;
    assert(a@.skip(0) == a@ && b@.skip(0) == b@);
    while i < a.len() && i < b.len()
        invariant
            i <= a@.len(),
            i <= b@.len(),
            text_order(left@, right@) == text_order(a@.skip(i as int), b@.skip(i as int)),
        decreases a@.len() - i,
    {
        if a[i] < b[i] {
            return Order::Before;
        }
        if b[i] < a[i] {
            return Order::After;
        }
        assert(a@.skip(i as int).skip(1) == a@.skip(i + 1));
        assert(b@.skip(i as int).skip(1) == b@.skip(i + 1));
        i += 1;
    }
    if i < b.len() {
        Order::Before
    } else if i < a.len() {
        Order::After
    } else {
        Order::Same
    }
}

/// One text stands before another in the order of texts: they agree up to a place, at which the one
/// ends or has the smaller character.
pub open spec fn precedes(left: Seq<char>, right: Seq<char>) -> bool {
    exists|k: int|
        {
            &&& 0 <= k <= left.len()
            &&& k < right.len()
            &&& #[trigger] left.take(k) == right.take(k)
            &&& k == left.len() || left[k] < right[k]
        }
}

proof fn lemma_precedes_behind(left: Seq<char>, right: Seq<char>)
    requires
        left.len() > 0,
        right.len() > 0,
        left[0] == right[0],
    ensures
        precedes(left, right) <==> precedes(left.skip(1), right.skip(1)),
{
    let a = left.skip(1);
    let b = right.skip(1);
    if precedes(left, right) {
        let k = choose|k: int|
            {
                &&& 0 <= k <= left.len()
                &&& k < right.len()
                &&& #[trigger] left.take(k) == right.take(k)
                &&& k == left.len() || left[k] < right[k]
            };
        assert(k > 0);
        assert forall|i: int| 0 <= i < k - 1 implies a[i] == b[i] by {
            assert(left.take(k)[i + 1] == right.take(k)[i + 1]);
        }
        assert(a.take(k - 1) =~= b.take(k - 1));
    }
    if precedes(a, b) {
        let k = choose|k: int|
            {
                &&& 0 <= k <= a.len()
                &&& k < b.len()
                &&& #[trigger] a.take(k) == b.take(k)
                &&& k == a.len() || a[k] < b[k]
            };
        assert forall|i: int| 0 <= i < k + 1 implies left[i] == right[i] by {
            if i > 0 {
                assert(a.take(k)[i - 1] == b.take(k)[i - 1]);
            }
        }
        assert(left.take(k + 1) =~= right.take(k + 1));
    }
}

/// The order of two texts says which of them stands before the other; only a text itself is the same.
pub proof fn lemma_text_order_decides(left: Seq<char>, right: Seq<char>)
    ensures
        text_order(left, right) == Order::Before <==> precedes(left, right),
        text_order(left, right) == Order::Same <==> left == right,
        text_order(left, right) == Order::After <==> precedes(right, left),
    decreases left.len(),
{
    if left.len() == 0 || right.len() == 0 || left[0] != right[0] {
        assert(left.take(0) =~= right.take(0));
        assert(right.take(0) =~= left.take(0));
        if precedes(left, right) {
            let k = choose|k: int|
                {
                    &&& 0 <= k <= left.len()
                    &&& k < right.len()
                    &&& #[trigger] left.take(k) == right.take(k)
                    &&& k == left.len() || left[k] < right[k]
                };
            if k > 0 {
                assert(left.take(k)[0] == right.take(k)[0]);
            }
        }
        if precedes(right, left) {
            let k = choose|k: int|
                {
                    &&& 0 <= k <= right.len()
                    &&& k < left.len()
                    &&& #[trigger] right.take(k) == left.take(k)
                    &&& k == right.len() || right[k] < left[k]
                };
            if k > 0 {
                assert(left.take(k)[0] == right.take(k)[0]);
            }
        }
        if left.len() == 0 && right.len() == 0 {
            assert(left =~= right);
        }
    } else {
        lemma_precedes_behind(left, right);
        lemma_precedes_behind(right, left);
        lemma_text_order_decides(left.skip(1), right.skip(1));
        if left.skip(1) == right.skip(1) {
            assert(left =~= seq![left[0]] + left.skip(1));
            assert(right =~= seq![right[0]] + right.skip(1));
        }
    }
}

/// No character of the text is the given one.
pub open spec fn lacks(text: Seq<char>, c: char) -> bool {
    forall|i: int| 0 <= i < text.len() ==> #[trigger] text[i] != c
}

/// What stands in a part of a text stands in the text.
pub proof fn lemma_contained_in_sum(
    left: Seq<char>,
    middle: Seq<char>,
    right: Seq<char>,
    term: Seq<char>,
)
    requires
        contains_text(middle, term),
    ensures
        contains_text(left + middle + right, term),
{
    let at = choose|at: int| occurs_at(middle, term, at);
    let all = left + middle + right;
    assert(all.subrange(left.len() + at, left.len() + at + term.len()) =~= middle.subrange(
        at,
        at + term.len(),
    ));
    assert(occurs_at(all, term, left.len() + at));
}

/// A term that stands in two texts with a character between them that it lacks stands in one of the
/// two, and one that stands in either of them stands in the whole.
pub proof fn lemma_contained_on_a_side(
    left: Seq<char>,
    c: char,
    right: Seq<char>,
    term: Seq<char>,
)
    requires
        lacks(term, c),
    ensures
        contains_text(left + seq![c] + right, term) <==> contains_text(left, term) || contains_text(
            right,
            term,
        ),
{
    let all = left + seq![c] + right;
    if contains_text(all, term) {
        let at = choose|at: int| occurs_at(all, term, at);
        assert forall|i: int| 0 <= i < term.len() implies #[trigger] term[i] == all[at + i] by {
            assert(all.subrange(at, at + term.len())[i] == all[at + i]);
        }
        if at + term.len() <= left.len() {
            assert(left.subrange(at, at + term.len()) =~= term);
            assert(occurs_at(left, term, at));
        } else if at > left.len() {
            let from = at - left.len() - 1;
            assert(right.subrange(from, from + term.len()) =~= term);
            assert(occurs_at(right, term, from));
        } else {
            assert(term[left.len() - at] == c);
        }
    }
    if contains_text(left, term) {
        lemma_contained_in_sum(seq![], left, seq![c] + right, term);
        assert(seq![] + left + (seq![c] + right) =~= all);
    }
    if contains_text(right, term) {
        lemma_contained_in_sum(left + seq![c], right, seq![], term);
        assert(left + seq![c] + right + seq![] =~= all);
    }
}

/// Texts joined by one character hold a term that lacks it where one of them does.
pub proof fn lemma_contained_in_joined(parts: Seq<Seq<char>>, c: char, term: Seq<char>)
    requires
        lacks(term, c),
        term.len() > 0,
    ensures
        contains_text(joined(parts, seq![c]), term) <==> exists|i: int|
            0 <= i < parts.len() && contains_text(#[trigger] parts[i], term),
    decreases parts.len(),
{
    if parts.len() == 0 {
        if contains_text(joined(parts, seq![c]), term) {
            let at = choose|at: int| occurs_at(joined(parts, seq![c]), term, at);
        }
    } else if parts.len() == 1 {
        if contains_text(parts[0], term) {
            assert(0 <= 0 < parts.len() && contains_text(parts[0], term));
        }
    } else {
        let before = parts.drop_last();
        lemma_contained_in_joined(before, c, term);
        lemma_contained_on_a_side(joined(before, seq![c]), c, parts.last(), term);
        if exists|i: int| 0 <= i < parts.len() && contains_text(#[trigger] parts[i], term) {
            let i = choose|i: int| 0 <= i < parts.len() && contains_text(#[trigger] parts[i], term);
            if i < before.len() {
                assert(before[i] == parts[i]);
            }
        }
        if exists|i: int| 0 <= i < before.len() && contains_text(#[trigger] before[i], term) {
            let i = choose|i: int| 0 <= i < before.len() && contains_text(
                #[trigger] before[i],
                term,
            );
            assert(contains_text(parts[i], term));
        }
        if contains_text(parts.last(), term) {
            assert(contains_text(parts[parts.len() - 1], term));
        }
    }
}

/// Joining a list is joining its two halves, with the separator between them.
pub proof fn lemma_joined_halves(
    left: Seq<Seq<char>>,
    right: Seq<Seq<char>>,
    separator: Seq<char>,
)
    requires
        left.len() > 0,
        right.len() > 0,
    ensures
        joined(left + right, separator) == joined(left, separator) + separator + joined(
            right,
            separator,
        ),
    decreases right.len(),
{
    let all = left + right;
    assert(all.last() == right.last());
    if right.len() == 1 {
        assert(all.drop_last() =~= left);
    } else {
        lemma_joined_halves(left, right.drop_last(), separator);
        assert(all.drop_last() =~= left + right.drop_last());
        assert(joined(all, separator) =~= joined(left, separator) + separator + joined(
            right,
            separator,
        ));
    }
}

/// Capital letters of the alphabet turn into the small ones, and nothing else turns into anything.
pub proof fn lemma_small_letters(text: Seq<char>, i: int)
    requires
        0 <= i < text.len(),
    ensures
        ascii_lowercase(text).len() == text.len(),
        'A' <= text[i] <= 'Z' ==> ascii_lowercase(text)[i] as int - 'a' as int == text[i] as int
            - 'A' as int,
        !('A' <= text[i] <= 'Z') ==> ascii_lowercase(text)[i] == text[i],
        ascii_lowercase(ascii_lowercase(text)) == ascii_lowercase(text),
{
    assert(ascii_lowercase(ascii_lowercase(text)) =~= ascii_lowercase(text));
}

/// Two texts, one behind the other, are turned into small letters as each of them is.
pub proof fn lemma_lowercase_sum(left: Seq<char>, right: Seq<char>)
    ensures
        ascii_lowercase(left + right) == ascii_lowercase(left) + ascii_lowercase(right),
{
    assert(ascii_lowercase(left + right) =~= ascii_lowercase(left) + ascii_lowercase(right));
}

/// What is left behind a prefix is what was put behind it.
pub proof fn lemma_prefix_taken_off(prefix: Seq<char>, rest: Seq<char>)
    ensures
        has_prefix(prefix + rest, prefix),
        without_prefix(prefix + rest, prefix) == Some(rest),
{
    assert((prefix + rest).subrange(0, prefix.len() as int) =~= prefix);
    assert((prefix + rest).skip(prefix.len() as int) =~= rest);
}

/// Every character of the text is white space.
pub open spec fn blank(text: Seq<char>) -> bool {
    forall|i: int| 0 <= i < text.len() ==> white_space(#[trigger] text[i])
}

/// Of the ASCII characters, the space and those from the tabulator to the carriage return are white
/// space.
pub proof fn lemma_ascii_white_space(c: char)
    requires
        c <= '\u{7f}',
    ensures
        white_space(c) <==> c as int == 32 || 9 <= c as int <= 13,
{
}

proof fn lemma_trim_start_parts(text: Seq<char>)
    ensures
        ({
            let cut = text.len() - trim_start(text).len();
            &&& 0 <= cut <= text.len()
            &&& blank(text.take(cut))
            &&& trim_start(text) == text.skip(cut)
            &&& trim_start(text).len() > 0 ==> !white_space(trim_start(text)[0])
        }),
    decreases text.len(),
{
    if text.len() > 0 && white_space(text[0]) {
        let rest = text.skip(1);
        lemma_trim_start_parts(rest);
        let cut = rest.len() - trim_start(rest).len();
        assert forall|i: int| 0 <= i < cut + 1 implies white_space(
            #[trigger] text.take(cut + 1)[i],
        ) by {
            if i > 0 {
                assert(rest.take(cut)[i - 1] == text[i]);
            }
        }
        assert(rest.skip(cut) =~= text.skip(cut + 1));
    } else {
        assert(text.skip(0) =~= text);
    }
}

proof fn lemma_trim_end_parts(text: Seq<char>)
    ensures
        ({
            let kept = trim_end(text).len() as int;
            &&& kept <= text.len()
            &&& blank(text.skip(kept))
            &&& trim_end(text) == text.take(kept)
            &&& kept > 0 ==> !white_space(trim_end(text).last())
        }),
    decreases text.len(),
{
    if text.len() > 0 && white_space(text.last()) {
        let rest = text.drop_last();
        lemma_trim_end_parts(rest);
        let kept = trim_end(rest).len() as int;
        assert forall|i: int| 0 <= i < text.len() - kept implies white_space(
            #[trigger] text.skip(kept)[i],
        ) by {
            if kept + i < rest.len() {
                assert(rest.skip(kept)[i] == text[kept + i]);
            }
        }
        assert(rest.take(kept) =~= text.take(kept));
    } else {
        assert(text.take(text.len() as int) =~= text);
    }
}

/// Trimming takes the white space off both ends of a text, and nothing else: what is left begins and
/// ends with something else.
pub proof fn lemma_trimmed(text: Seq<char>)
    ensures
        exists|from: int, to: int|
            {
                &&& 0 <= from <= to <= text.len()
                &&& #[trigger] text.subrange(from, to) == trimmed(text)
                &&& blank(text.take(from))
                &&& blank(text.skip(to))
            },
        trimmed(text).len() > 0 ==> !white_space(trimmed(text)[0]) && !white_space(
            trimmed(text).last(),
        ),
        trimmed(text).len() == 0 <==> blank(text),
{
    lemma_trim_start_parts(text);
    let inner = trim_start(text);
    lemma_trim_end_parts(inner);
    let from = text.len() - inner.len();
    let to = from + trimmed(text).len();
    assert(text.subrange(from, to) =~= trimmed(text));
    assert forall|i: int| 0 <= i < text.len() - to implies white_space(
        #[trigger] text.skip(to)[i],
    ) by {
        assert(inner.skip(to - from)[i] == text[to + i]);
    }
    if trimmed(text).len() > 0 {
        assert(trimmed(text)[0] == inner[0]);
        assert(!white_space(text[from]));
    }
    if trimmed(text).len() == 0 {
        assert forall|i: int| 0 <= i < text.len() implies white_space(#[trigger] text[i]) by {
            if i < from {
                assert(text.take(from)[i] == text[i]);
            } else {
                assert(text.skip(to)[i - to] == text[i]);
            }
        }
    }
}

proof fn lemma_words_behind_space(text: Seq<char>)
    requires
        text.len() > 0,
        white_space(text[0]),
    ensures
        words(text) == words(text.skip(1)),
{
    assert(trim_start(text) == trim_start(text.skip(1)));
}

proof fn lemma_word_len_sum(left: Seq<char>, c: char, right: Seq<char>)
    requires
        white_space(c),
    ensures
        word_len(left + seq![c] + right) == word_len(left),
    decreases left.len(),
{
    let all = left + seq![c] + right;
    if left.len() > 0 && !white_space(left[0]) {
        lemma_word_len_sum(left.skip(1), c, right);
        assert(all.skip(1) =~= left.skip(1) + seq![c] + right);
    }
}

/// The words on both sides of a white space are the words of the whole.
pub proof fn lemma_words_of_sides(left: Seq<char>, c: char, right: Seq<char>)
    requires
        white_space(c),
    ensures
        words(left + seq![c] + right) == words(left) + words(right),
    decreases left.len(),
{
    let all = left + seq![c] + right;
    if left.len() == 0 {
        lemma_words_behind_space(all);
        assert(all.skip(1) =~= right);
        assert(words(left) + words(right) =~= words(right));
    } else if white_space(left[0]) {
        lemma_words_behind_space(all);
        lemma_words_behind_space(left);
        assert(all.skip(1) =~= left.skip(1) + seq![c] + right);
        lemma_words_of_sides(left.skip(1), c, right);
    } else {
        lemma_word_len_sum(left, c, right);
        lemma_word_len(left);
        let n = word_len(left) as int;
        assert(n > 0);
        assert(trim_start(left) == left && trim_start(all) == all);
        assert(all.take(n) =~= left.take(n));
        assert(all.skip(n) =~= left.skip(n) + seq![c] + right);
        lemma_words_of_sides(left.skip(n), c, right);
        assert(words(all) == seq![left.take(n)] + (words(left.skip(n)) + words(right)));
        assert(words(left) == seq![left.take(n)] + words(left.skip(n)));
        assert(words(all) =~= words(left) + words(right));
    }
}

proof fn lemma_word_len_whole(word: Seq<char>)
    requires
        forall|i: int| 0 <= i < word.len() ==> !white_space(#[trigger] word[i]),
    ensures
        word_len(word) == word.len(),
    decreases word.len(),
{
    if word.len() > 0 {
        assert(!white_space(word[0]));
        assert forall|i: int| 0 <= i < word.skip(1).len() implies !white_space(
            #[trigger] word.skip(1)[i],
        ) by {
            assert(word.skip(1)[i] == word[i + 1]);
        }
        lemma_word_len_whole(word.skip(1));
    }
}

/// A text without white space is its one word; the empty text has none.
pub proof fn lemma_words_of_word(word: Seq<char>)
    requires
        forall|i: int| 0 <= i < word.len() ==> !white_space(#[trigger] word[i]),
    ensures
        words(word) == (if word.len() > 0 {
            seq![word]
        } else {
            seq![]
        }),
{
    lemma_word_len_whole(word);
    if word.len() > 0 {
        assert(!white_space(word[0]));
        assert(trim_start(word) == word);
        assert(word.take(word.len() as int) =~= word);
        assert(word.skip(word.len() as int) =~= seq![]);
        assert(trim_start(seq![]) == Seq::<char>::empty());
        assert(words(seq![]) == Seq::<Seq<char>>::empty());
        assert(words(word) =~= seq![word]);
    }
}

proof fn lemma_word_len_chars(text: Seq<char>)
    ensures
        word_len(text) <= text.len(),
        forall|i: int| 0 <= i < word_len(text) ==> !white_space(#[trigger] text[i]),
    decreases text.len(),
{
    if text.len() > 0 && !white_space(text[0]) {
        lemma_word_len_chars(text.skip(1));
        assert forall|i: int| 0 <= i < word_len(text) implies !white_space(#[trigger] text[i]) by {
            if i > 0 {
                assert(text.skip(1)[i - 1] == text[i]);
            }
        }
    }
}

/// A word is not empty and has no white space.
pub proof fn lemma_words_have_no_space(text: Seq<char>, i: int)
    requires
        0 <= i < words(text).len(),
    ensures
        words(text)[i].len() > 0,
        forall|k: int|
            0 <= k < words(text)[i].len() ==> !white_space(#[trigger] words(text)[i][k]),
    decreases text.len(),
{
    let rest = trim_start(text);
    lemma_trim_start_len(text);
    if rest.len() > 0 {
        lemma_word_len_chars(rest);
        lemma_word_len(rest);
        lemma_word_len(rest.skip(1));
        let n = word_len(rest) as int;
        assert(words(text) == seq![rest.take(n)] + words(rest.skip(n)));
        if i == 0 {
            assert forall|k: int| 0 <= k < n implies !white_space(#[trigger] words(text)[0][k]) by {
                assert(words(text)[0][k] == rest[k]);
            }
        } else {
            assert(words(text)[i] == words(rest.skip(n))[i - 1]);
            lemma_words_have_no_space(rest.skip(n), i - 1);
        }
    }
}

/// The decimal digits of a number are read as that number.
pub proof fn lemma_decimal_read(number: nat)
    ensures
        all_digits(decimal(number)),
        digits_value(decimal(number)) == number,
        number_in(decimal(number)) == Some(number),
        number > 0 ==> decimal(number)[0] != '0',
        number < 10 ==> decimal(number).len() == 1,
    decreases number,
{
    let digits = decimal(number);
    if number < 10 {
        assert(digits.drop_last().len() == 0);
        assert(digits_value(digits.drop_last()) == 0);
        assert(digits.last() as int == 48 + number);
    } else {
        lemma_decimal_read(number / 10);
        assert(digits.drop_last() =~= decimal(number / 10));
        assert(digits.last() as int == 48 + number % 10);
        assert(digits[0] == decimal(number / 10)[0]);
        assert forall|i: int| 0 <= i < digits.len() implies is_digit(#[trigger] digits[i]) by {
            if i < digits.len() - 1 {
                assert(digits[i] == decimal(number / 10)[i]);
            }
        }
    }
    assert(is_digit(digits[0]));
}

/// Of the characters beyond ASCII, the spaces of Unicode and its ends of lines and paragraphs are white
/// space.
pub proof fn lemma_other_white_space(c: char)
    requires
        c > '\u{7f}',
    ensures
        white_space(c) <==> {
            let code = c as int;
            ||| code == 0x85 || code == 0xa0 || code == 0x1680
            ||| 0x2000 <= code <= 0x200a
            ||| code == 0x2028 || code == 0x2029 || code == 0x202f || code == 0x205f
            ||| code == 0x3000
        },
{
}

/// A plus sign and zeros before the digits of a number do not change it; a lone plus sign, or nothing,
/// is no number.
pub proof fn lemma_signs_before_number(number: nat)
    ensures
        number_in(seq!['+'] + decimal(number)) == Some(number),
        number_in(seq!['0'] + decimal(number)) == Some(number),
        number_in(seq!['+']) is None,
        number_in(seq![]) is None,
{
    let digits = decimal(number);
    lemma_decimal_read(number);
    assert((seq!['+'] + digits).skip(1) =~= digits);
    assert(seq!['+'].skip(1) =~= seq![]);
    let padded = seq!['0'] + digits;
    lemma_leading_zero(digits);
    assert forall|i: int| 0 <= i < padded.len() implies is_digit(#[trigger] padded[i]) by {
        if i > 0 {
            assert(padded[i] == digits[i - 1]);
        }
    }
    assert(padded[0] == '0');
}

proof fn lemma_leading_zero(digits: Seq<char>)
    ensures
        digits_value(seq!['0'] + digits) == digits_value(digits),
    decreases digits.len(),
{
    let padded = seq!['0'] + digits;
    if digits.len() == 0 {
        assert(padded.drop_last() =~= seq![]);
        assert(digits_value(padded.drop_last()) == 0);
        assert(padded.last() == '0');
    } else {
        lemma_leading_zero(digits.drop_last());
        assert(padded.drop_last() =~= seq!['0'] + digits.drop_last());
    }
}

/// One text joined is that text, and none is nothing.
pub proof fn lemma_joined_few(part: Seq<char>, separator: Seq<char>)
    ensures
        joined(seq![part], separator) == part,
        joined(seq![], separator).len() == 0,
{
}

} // verus!
