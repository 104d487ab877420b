//! Verified operations on text: comparison, substring search, trimming and the reading of
//! unsigned decimal numbers.
use vstd::prelude::*;

verus! {

/// The text of an optional string slice.
pub open spec fn optional_text(text: Option<&str>) -> Option<Seq<char>> {
    match text {
        Some(s) => Some(s@),
        None => None,
    }
}

/// The text of an optional owned string.
pub open spec fn optional_string(text: Option<String>) -> Option<Seq<char>> {
    match text {
        Some(s) => Some(s@),
        None => None,
    }
}

/// Whether `needle` stands somewhere in `haystack`.
pub open spec fn occurs_in(needle: Seq<char>, haystack: Seq<char>) -> bool {
    exists|at: int|
        0 <= at <= haystack.len() - needle.len() && #[trigger] haystack.subrange(
            at,
            at + needle.len(),
        ) == needle
}

/// Whether `c` has the Unicode property `White_Space`.
pub open spec fn is_white_space(c: char) -> bool {
    let code = c as u32;
    ||| 0x9 <= code <= 0xd
    ||| code == 0x20
    ||| code == 0x85
    ||| code == 0xa0
    ||| code == 0x1680
    ||| 0x2000 <= code <= 0x200a
    ||| code == 0x2028
    ||| code == 0x2029
    ||| code == 0x202f
    ||| code == 0x205f
    ||| code == 0x3000
}

/// `text` without the white space that it begins with.
pub open spec fn trim_start(text: Seq<char>) -> Seq<char>
    decreases text.len(),
{
    if text.len() > 0 && is_white_space(text[0]) {
        trim_start(text.skip(1))
    } else {
        text
    }
}

/// `text` without the white space that it ends with.
pub open spec fn trim_end(text: Seq<char>) -> Seq<char>
    decreases text.len(),
{
    if text.len() > 0 && is_white_space(text.last()) {
        trim_end(text.drop_last())
    } else {
        text
    }
}

/// `text` without the white space around it.
pub open spec fn trimmed(text: Seq<char>) -> Seq<char> {
    trim_end(trim_start(text))
}

/// Whether `c` is one of the ten decimal digits.
pub open spec fn is_digit(c: char) -> bool {
    '0' as u32 <= c as u32 <= '9' as u32
}

/// The number that a run of decimal digits denotes.
pub open spec fn decimal_value(digits: Seq<char>) -> nat
    decreases digits.len(),
{
    if digits.len() == 0 {
        0
    } else {
        (10 * decimal_value(digits.drop_last()) + (digits.last() as u32 - '0' as u32)) as nat
    }
}

/// `text` without one leading plus sign.
pub open spec fn without_plus(text: Seq<char>) -> Seq<char> {
    if text.len() > 0 && text[0] == '+' {
        text.skip(1)
    } else {
        text
    }
}

/// The unsigned number that `text` denotes: an optional plus sign and at least one decimal digit,
/// of a value of at most `most`. Any other text denotes none.
pub open spec fn unsigned_value(text: Seq<char>, most: nat) -> Option<nat> {
    let digits = without_plus(text);
    if digits.len() > 0 && (forall|i: int| 0 <= i < digits.len() ==> is_digit(#[trigger] digits[i]))
        && decimal_value(digits) <= most {
        Some(decimal_value(digits))
    } else {
        None
    }
}

/// The decimal digit of a value below ten.
pub open spec fn digit_of(value: nat) -> char {
    ('0' as u32 + value) as char
}

/// The decimal digits of `n`, without leading zeros.
pub open spec fn decimal_digits(n: nat) -> Seq<char>
    decreases n,
{
    if n < 10 {
        seq![digit_of(n)]
    } else {
        decimal_digits(n / 10).push(digit_of(n % 10))
    }
}

/// The characters of `text`.
pub fn chars_of(text: &str) -> (chars: Vec<char>)
    ensures
        chars@ == text@,
{
    let mut chars: Vec<char> = Vec::new();
    for c in it: text.chars()
        invariant
            it.seq() == text@,
            chars@ == text@.take(it.index() as int),
    {
        chars.push(c);
    }
    chars
}

/// Whether two texts are the same.
pub fn same_text(a: &str, b: &str) -> (same: bool)
    ensures
        same == (a@ == b@),
{
    let x = chars_of(a);
    let y = chars_of(b);
    if x.len() != y.len() {
        return false;
    }
    for i in 0..x.len()
        invariant
            x@ == a@,
            y@ == b@,
            x.len() == y.len(),
            forall|j: int| 0 <= j < i ==> x@[j] == y@[j],
    {
        if x[i] != y[i] {
            return false;
        }
    }
    assert(x@ =~= y@);
    true
}

/// Whether `needle` stands somewhere in `haystack`.
pub fn contains_text(haystack: &str, needle: &str) -> (found: bool)
    ensures
        found == occurs_in(needle@, haystack@),
{
    let hay = chars_of(haystack);
    let pin = chars_of(needle);
    if pin.len() > hay.len() {
        return false;
    }
    let last: usize = hay.len() - pin.len();
    let mut at: usize = 0;
    while at <= last
        invariant
            hay@ == haystack@,
            pin@ == needle@,
            last + pin.len() == hay.len(),
            at <= last + 1,
            forall|k: int| 0 <= k < at ==> #[trigger] hay@.subrange(k, k + pin.len()) != pin@,
        decreases last + 1 - at,
    {
        let mut matched: usize = 0;
        while matched < pin.len() && hay[at + matched] == pin[matched]
            invariant
                matched <= pin.len(),
                at + pin.len() <= hay.len(),
                forall|j: int| 0 <= j < matched ==> hay@[at + j] == pin@[j],
            decreases pin.len() - matched,
        {
            matched += 1;
        }
        if matched == pin.len() {
            assert(hay@.subrange(at as int, at + pin.len()) =~= pin@);
            return true;
        }
        assert(hay@.subrange(at as int, at + pin.len())[matched as int] != pin@[matched as int]);
        if at == last {
            return false;
        }
        at += 1;
    }
    false
}

/// Whether `c` has the Unicode property `White_Space`.
fn white_space(c: char) -> (white: bool)
    ensures
        white == is_white_space(c),
{
    let code: u32 = c as u32;
    (0x9 <= code && code <= 0xd) || code == 0x20 || code == 0x85 || code == 0xa0 || code == 0x1680
        || (0x2000 <= code && code <= 0x200a) || code == 0x2028 || code == 0x2029 || code == 0x202f
        || code == 0x205f || code == 0x3000
}

/// The bounds of what trimming leaves of `chars`.
fn trim_bounds(chars: &Vec<char>) -> (bounds: (usize, usize))
    ensures
        bounds.0 <= bounds.1 <= chars.len(),
        chars@.subrange(bounds.0 as int, bounds.1 as int) == trimmed(chars@),
{
    let mut from: usize = 0;
    assert(chars@.skip(0) =~= chars@);
    while from < chars.len() && white_space(chars[from])
        invariant
            from <= chars.len(),
            trim_start(chars@.skip(from as int)) == trim_start(chars@),
        decreases chars.len() - from,
    {
        assert(chars@.skip(from as int).skip(1) =~= chars@.skip(from + 1));
        from += 1;
    }
    let mut to: usize = chars.len();
    assert(chars@.subrange(from as int, to as int) =~= chars@.skip(from as int));
    assert(trim_start(chars@.skip(from as int)) == chars@.skip(from as int));
    while to > from && white_space(chars[to - 1])
        invariant
            from <= to <= chars.len(),
            trim_end(chars@.subrange(from as int, to as int)) == trimmed(chars@),
        decreases to,
    {
        assert(chars@.subrange(from as int, to as int).drop_last() =~= chars@.subrange(
            from as int,
            to - 1,
        ));
        to -= 1;
    }
    assert(trim_end(chars@.subrange(from as int, to as int)) == chars@.subrange(
        from as int,
        to as int,
    ));
    (from, to)
}

/// More digits never denote a smaller number.
proof fn lemma_decimal_value_grows(digits: Seq<char>, shorter: int)
    requires
        0 <= shorter <= digits.len(),
        forall|i: int| 0 <= i < digits.len() ==> is_digit(#[trigger] digits[i]),
    ensures
        decimal_value(digits.take(shorter)) <= decimal_value(digits),
    decreases digits.len(),
{
    if shorter == digits.len() {
        assert(digits.take(shorter) =~= digits);
    } else {
        let init = digits.drop_last();
        assert(init.take(shorter) =~= digits.take(shorter));
        assert forall|i: int| 0 <= i < init.len() implies is_digit(#[trigger] init[i]) by {
            assert(init[i] == digits[i]);
        }
        lemma_decimal_value_grows(init, shorter);
        assert(is_digit(digits[digits.len() - 1]));
    }
}

/// Reads an unsigned decimal number of at most `most` from `text`, white space around it set
/// aside.
pub fn parse_unsigned(text: &str, most: u64) -> (value: Option<u64>)
    ensures
        match value {
            Some(v) => unsigned_value(trimmed(text@), most as nat) == Some(v as nat),
            None => unsigned_value(trimmed(text@), most as nat) is None,
        },
{
    let chars = chars_of(text);
    let (start, to) = trim_bounds(&chars);
    let ghost whole = trimmed(text@);
    let mut from: usize = start;
    if from < to && chars[from] == '+' {
        from += 1;
    }
    let ghost digits = without_plus(whole);
    assert(digits =~= chars@.subrange(from as int, to as int));
    if from == to {
        return None;
    }
    let mut value: u64 = 0;
    let mut at: usize = from;
    while at < to
        invariant
            from <= at <= to <= chars.len(),
            from < to,
            digits == chars@.subrange(from as int, to as int),
            whole == trimmed(text@),
            digits == without_plus(whole),
            forall|i: int| 0 <= i < at - from ==> is_digit(#[trigger] digits[i]),
            value == decimal_value(digits.take(at - from)),
            value <= most,
        decreases to - at,
    {
        let code: u32 = chars[at] as u32;
        let ghost here = at - from;
        assert(digits[here] == chars@[at as int]);
        if code < 0x30 || code > 0x39 {
            assert(!is_digit(digits[here]));
            return None;
        }
        assert(is_digit(digits[here]));
        let grown: u128 = value as u128 * 10 + (code - 0x30) as u128;
        proof {
            let longer = digits.take(here + 1);
            assert(longer.drop_last() =~= digits.take(here));
            assert(longer.last() == digits[here]);
            assert(decimal_value(longer) == grown);
        }
        if grown > most as u128 {
            proof {
                if forall|i: int| 0 <= i < digits.len() ==> is_digit(#[trigger] digits[i]) {
                    lemma_decimal_value_grows(digits, here + 1);
                }
            }
            return None;
        }
        value = grown as u64;
        at += 1;
    }
    assert(digits.take(to - from) =~= digits);
    Some(value)
}

/// The decimal digit of a value below ten, as text.
fn digit_text(value: u64) -> (text: &'static str)
    requires
        value < 10,
    ensures
        text@ == seq![digit_of(value as nat)],
{
    proof {
        reveal_strlit("0");
        reveal_strlit("1");
        reveal_strlit("2");
        reveal_strlit("3");
        reveal_strlit("4");
        reveal_strlit("5");
        reveal_strlit("6");
        reveal_strlit("7");
        reveal_strlit("8");
        reveal_strlit("9");
    }
    let text = match value {
        0 => "0",
        1 => "1",
        2 => "2",
        3 => "3",
        4 => "4",
        5 => "5",
        6 => "6",
        7 => "7",
        8 => "8",
        _ => "9",
    };
    assert(text@ =~= seq![digit_of(value as nat)]);
    text
}

/// `n` in decimal.
pub fn decimal_text(n: u64) -> (text: String)
    ensures
        text@ == decimal_digits(n as nat),
    decreases n,
{
    if n < 10 {
        digit_text(n).to_owned()
    } else {
        let mut text = decimal_text(n / 10);
        text.append(digit_text(n % 10));
        assert(text@ =~= decimal_digits(n as nat));
        text
    }
}

/// A text that is there is kept as it is, the empty one too, and no text is made up.
pub proof fn law_optional_texts(slice: &str, owned: String)
    ensures
        optional_text(Some(slice)) == Some(slice@),
        optional_text(None) is None,
        optional_string(Some(owned)) == Some(owned@),
        optional_string(None) is None,
{
}

/// A text occurs wherever it stands between two others.
pub proof fn law_occurrences(before: Seq<char>, needle: Seq<char>, after: Seq<char>)
    ensures
        occurs_in(needle, before + needle + after),
{
    let whole = before + needle + after;
    let at = before.len() as int;
    assert(whole.subrange(at, at + needle.len()) =~= needle);
}

/// A text that occurs in another stands between two others there.
pub proof fn law_occurrences_stand_somewhere(needle: Seq<char>, haystack: Seq<char>)
    requires
        occurs_in(needle, haystack),
    ensures
        exists|before: Seq<char>, after: Seq<char>|
            haystack == #[trigger] (before + needle + after),
{
    let at = choose|at: int|
        0 <= at <= haystack.len() - needle.len() && #[trigger] haystack.subrange(
            at,
            at + needle.len(),
        ) == needle;
    let before = haystack.take(at);
    let after = haystack.skip(at + needle.len());
    assert(haystack =~= before + haystack.subrange(at, at + needle.len()) + after);
    assert(haystack == before + needle + after);
}

/// Whether every character of a text is white space.
pub open spec fn is_blank(text: Seq<char>) -> bool {
    forall|i: int| 0 <= i < text.len() ==> is_white_space(#[trigger] text[i])
}

/// What is cut off at the start.
proof fn lemma_trim_start(text: Seq<char>) -> (cut: int)
    ensures
        0 <= cut <= text.len(),
        is_blank(text.take(cut)),
        trim_start(text) == text.skip(cut),
        cut < text.len() ==> !is_white_space(text[cut]),
    decreases text.len(),
{
    if text.len() > 0 && is_white_space(text[0]) {
        let cut = 1 + lemma_trim_start(text.skip(1));
        assert forall|i: int| 0 <= i < text.take(cut).len() implies is_white_space(
            #[trigger] text.take(cut)[i],
        ) by {
            if i > 0 {
                assert(text.skip(1).take(cut - 1)[i - 1] == text[i]);
            }
        }
        assert(text.skip(1).skip(cut - 1) =~= text.skip(cut));
        cut
    } else {
        assert(text.skip(0) =~= text);
        0
    }
}

/// What is left at the end.
proof fn lemma_trim_end(text: Seq<char>) -> (left: int)
    ensures
        0 <= left <= text.len(),
        is_blank(text.skip(left)),
        trim_end(text) == text.take(left),
        left > 0 ==> !is_white_space(text[left - 1]),
    decreases text.len(),
{
    if text.len() > 0 && is_white_space(text.last()) {
        let left = lemma_trim_end(text.drop_last());
        assert forall|i: int| 0 <= i < text.skip(left).len() implies is_white_space(
            #[trigger] text.skip(left)[i],
        ) by {
            if i < text.len() - 1 - left {
                assert(text.drop_last().skip(left)[i] == text[left + i]);
            }
        }
        assert(text.drop_last().take(left) =~= text.take(left));
        left
    } else {
        assert(text.take(text.len() as int) =~= text);
        text.len() as int
    }
}

/// Trimming takes away white space on both sides, all of it and nothing else.
pub proof fn law_trimming(text: Seq<char>)
    ensures
        exists|before: Seq<char>, after: Seq<char>|
            is_blank(before) && is_blank(after) && text == #[trigger] (before + trimmed(text)
                + after),
        trimmed(text).len() > 0 ==> !is_white_space(trimmed(text)[0]) && !is_white_space(
            trimmed(text).last(),
        ),
{
    let cut = lemma_trim_start(text);
    let rest = text.skip(cut);
    let left = lemma_trim_end(rest);
    let before = text.take(cut);
    let after = rest.skip(left);
    assert(text =~= before + rest.take(left) + after);
    assert(text == before + trimmed(text) + after);
}

/// The digits of a number are digits, and they denote it.
proof fn lemma_decimal_digits(n: nat)
    ensures
        decimal_digits(n).len() >= 1,
        forall|i: int| 0 <= i < decimal_digits(n).len() ==> is_digit(#[trigger] decimal_digits(n)[i]),
        decimal_value(decimal_digits(n)) == n,
        n >= 1 ==> decimal_digits(n)[0] != '0',
        n < 10 <==> decimal_digits(n).len() == 1,
    decreases n,
{
    if n < 10 {
        let digits = decimal_digits(n);
        assert(digits.drop_last() =~= Seq::empty());
        assert(decimal_value(digits.drop_last()) == 0);
        assert(digits.last() as u32 == '0' as u32 + n);
    } else {
        lemma_decimal_digits(n / 10);
        let init = decimal_digits(n / 10);
        let digits = decimal_digits(n);
        assert(digits =~= init.push(digit_of(n % 10)));
        assert(digits.drop_last() =~= init);
        assert(digits.last() as u32 == '0' as u32 + n % 10);
        assert forall|i: int| 0 <= i < digits.len() implies is_digit(#[trigger] digits[i]) by {
            if i < init.len() {
                assert(digits[i] == init[i]);
            }
        }
        assert(digits[0] == init[0]);
    }
}

/// A number that is written down is read back: with a plus sign before it or without, if it is not
/// too large. It is written without a leading zero.
pub proof fn law_numbers_are_read_back(n: nat, most: nat)
    ensures
        unsigned_value(decimal_digits(n), most) == if n <= most {
            Some(n)
        } else {
            None
        },
        unsigned_value(seq!['+'] + decimal_digits(n), most) == unsigned_value(
            decimal_digits(n),
            most,
        ),
        n >= 1 ==> decimal_digits(n)[0] != '0',
        decimal_digits(0) == seq!['0'],
{
    lemma_decimal_digits(n);
    let digits = decimal_digits(n);
    assert(is_digit(digits[0]));
    assert((seq!['+'] + digits).skip(1) =~= digits);
    assert(without_plus(digits) == digits);
    assert(digit_of(0) == '0');
    assert(decimal_digits(0) =~= seq!['0']);
}

/// A zero before a number makes no difference.
pub proof fn law_leading_zeros_do_not_matter(digits: Seq<char>, most: nat)
    requires
        digits.len() > 0,
        forall|i: int| 0 <= i < digits.len() ==> is_digit(#[trigger] digits[i]),
    ensures
        unsigned_value(seq!['0'] + digits, most) == unsigned_value(digits, most),
{
    let longer = seq!['0'] + digits;
    lemma_leading_zero(digits);
    assert(is_digit(digits[0]));
    assert(without_plus(digits) == digits);
    assert(without_plus(longer) == longer);
    assert forall|i: int| 0 <= i < longer.len() implies is_digit(#[trigger] longer[i]) by {
        if i > 0 {
            assert(longer[i] == digits[i - 1]);
        }
    }
}

/// A zero before digits makes no difference to their value.
proof fn lemma_leading_zero(digits: Seq<char>)
    ensures
        decimal_value(seq!['0'] + digits) == decimal_value(digits),
    decreases digits.len(),
{
    let longer = seq!['0'] + digits;
    if digits.len() == 0 {
        assert(longer.drop_last() =~= Seq::empty());
        assert(decimal_value(longer.drop_last()) == 0);
    } else {
        assert(longer.drop_last() =~= seq!['0'] + digits.drop_last());
        lemma_leading_zero(digits.drop_last());
    }
}

/// A text with anything but digits after an optional plus sign denotes no number, nor does one
/// without a digit.
pub proof fn law_other_texts_denote_no_number(text: Seq<char>, most: nat)
    requires
        ({
            let start: int = if text.len() > 0 && text[0] == '+' {
                1
            } else {
                0
            };
            text.len() == start || exists|i: int|
                start <= i < text.len() && !('0' as u32 <= #[trigger] text[i] as u32 <= '9' as u32)
        }),
    ensures
        unsigned_value(text, most) is None,
{
    let start: int = if text.len() > 0 && text[0] == '+' {
        1
    } else {
        0
    };
    let digits = without_plus(text);
    if text.len() != start {
        let i = choose|i: int|
            start <= i < text.len() && !('0' as u32 <= #[trigger] text[i] as u32 <= '9' as u32);
        assert(!is_digit(digits[i - start]));
    }
}

} // verus!
