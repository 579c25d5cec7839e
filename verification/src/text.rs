//! Text helpers: numbers in decimal, trimming, searching and parsing.
use vstd::prelude::*;

verus! {

/// The character of a decimal digit.
pub open spec fn digit_char(digit: nat) -> char {
    (48 + digit) as char
}

/// A number written in decimal without leading zeros.
pub open spec fn decimal(value: nat) -> Seq<char>
    decreases value,
{
    if value < 10 {
        seq![digit_char(value)]
    } else {
        decimal(value / 10).push(digit_char(value % 10))
    }
}

fn push_digit(text: &mut String, digit: u64)
    requires
        digit < 10,
    ensures
        final(text)@ == old(text)@.push(digit_char(digit as nat)),
{
    proof {
        reveal_strlit("0");
        reveal_strlit("1");
        reveal_strlit("2");
        reveal_strlit("3");
        reveal_strlit("4");
        reveal_strlit("5");
        reveal_strlit("6");
        reveal_strlit("7");
        reveal_strlit("8");
        reveal_strlit("9");
    }
    if digit == 0 {
        text.append("0");
    } else if digit == 1 {
        text.append("1");
    } else if digit == 2 {
        text.append("2");
    } else if digit == 3 {
        text.append("3");
    } else if digit == 4 {
        text.append("4");
    } else if digit == 5 {
        text.append("5");
    } else if digit == 6 {
        text.append("6");
    } else if digit == 7 {
        text.append("7");
    } else if digit == 8 {
        text.append("8");
    } else {
        text.append("9");
    }
    assert(text@ =~= old(text)@.push(digit_char(digit as nat)));
}

/// Appends `value` in decimal.
pub fn push_decimal(text: &mut String, value: u64)
    ensures
        final(text)@ == old(text)@ + decimal(value as nat),
    decreases value,
{
    if value < 10 {
        push_digit(text, value);
        assert(text@ =~= old(text)@ + decimal(value as nat));
    } else {
        push_decimal(text, value / 10);
        push_digit(text, value % 10);
        assert(text@ =~= old(text)@ + decimal(value as nat));
    }
}

/// `value` written in decimal.
pub fn decimal_text(value: u64) -> (text: String)
    ensures
        text@ == decimal(value as nat),
{
    let mut text = String::new();
    push_decimal(&mut text, value);
    assert(text@ =~= decimal(value as nat));
    text
}

/// A number with its sign in decimal.
pub open spec fn signed_decimal(value: int) -> Seq<char> {
    if value < 0 {
        "-"@ + decimal((-value) as nat)
    } else {
        decimal(value as nat)
    }
}

/// `value` written in decimal, with a minus in front where it is negative.
pub fn signed_text(value: i32) -> (text: String)
    ensures
        text@ == signed_decimal(value as int),
{
    if value < 0 {
        let size = decimal_text((-(value as i64)) as u64);
        joined("-", size.as_str())
    } else {
        decimal_text(value as u64)
    }
}

/// Whether two texts hold the same characters.
pub fn same_text(left: &str, right: &str) -> (same: bool)
    ensures
        same == (left@ == right@),
{
    left.to_owned() == right.to_owned()
}

/// Two texts one after the other.
pub fn joined(first: &str, second: &str) -> (text: String)
    ensures
        text@ == first@ + second@,
{
    let mut text = first.to_owned();
    text.append(second);
    text
}

/// Three texts one after the other.
pub fn joined3(first: &str, second: &str, third: &str) -> (text: String)
    ensures
        text@ == first@ + second@ + third@,
{
    let mut text = first.to_owned();
    text.append(second);
    text.append(third);
    text
}

/// The text that is there, or the empty text.
pub open spec fn text_or_empty(text: Option<String>) -> Seq<char> {
    match text {
        Some(text) => text@,
        None => Seq::empty(),
    }
}

/// Borrows the text that is there, or the empty text.
pub fn borrowed_or_empty(text: &Option<String>) -> (borrowed: &str)
    ensures
        borrowed@ == text_or_empty(*text),
{
    match text {
        Some(text) => text.as_str(),
        None => {
            proof {
                reveal_strlit("");
            }
            assert(""@ =~= Seq::<char>::empty());
            ""
        },
    }
}

/// Copies an optional text.
pub fn copied_text(text: &Option<String>) -> (copy: Option<String>)
    ensures
        copy == *text,
{
    match text {
        Some(text) => Some(text.clone()),
        None => None,
    }
}

/// The characters with the Unicode `White_Space` property.
pub open spec fn is_blank(c: char) -> bool {
    let code = c as int;
    ||| 0x09 <= code <= 0x0d
    ||| code == 0x20
    ||| code == 0x85
    ||| code == 0xa0
    ||| code == 0x1680
    ||| 0x2000 <= code <= 0x200a
    ||| code == 0x2028
    ||| code == 0x2029
    ||| code == 0x202f
    ||| code == 0x205f
    ||| code == 0x3000
}

fn blank(c: char) -> (result: bool)
    ensures
        result == is_blank(c),
{
    let code: u32 = c as u32;
    (0x09 <= code && code <= 0x0d) || code == 0x20 || code == 0x85 || code == 0xa0 || code == 0x1680
        || (0x2000 <= code && code <= 0x200a) || code == 0x2028 || code == 0x2029 || code == 0x202f
        || code == 0x205f || code == 0x3000
}

/// The characters after the leading blanks.
pub open spec fn trim_start_of(text: Seq<char>) -> Seq<char>
    decreases text.len(),
{
    if text.len() > 0 && is_blank(text[0]) {
        trim_start_of(text.skip(1))
    } else {
        text
    }
}

/// The characters before the trailing blanks.
pub open spec fn trim_end_of(text: Seq<char>) -> Seq<char>
    decreases text.len(),
{
    if text.len() > 0 && is_blank(text.last()) {
        trim_end_of(text.drop_last())
    } else {
        text
    }
}

/// The characters without leading and trailing blanks.
pub open spec fn trim_of(text: Seq<char>) -> Seq<char> {
    trim_end_of(trim_start_of(text))
}

/// The text without leading blanks.
pub fn trim_start(text: &str) -> (trimmed: &str)
    ensures
        trimmed@ == trim_start_of(text@),
{
    let total: usize = text.unicode_len();
    let mut start: usize = 0;
    assert(text@.skip(0) =~= text@);
    while start < total && blank(text.get_char(start))
        invariant
            start <= total == text@.len(),
            trim_start_of(text@) == trim_start_of(text@.skip(start as int)),
        decreases total - start,
    {
        assert(text@.skip(start as int).skip(1) =~= text@.skip(start + 1));
        assert(text@.skip(start as int)[0] == text@[start as int]);
        start = start + 1;
    }
    proof {
        if start < total {
            assert(text@.skip(start as int)[0] == text@[start as int]);
        }
        assert(text@.subrange(start as int, total as int) =~= text@.skip(start as int));
    }
    text.substring_char(start, total)
}

/// The text without leading and trailing blanks.
pub fn trim(text: &str) -> (trimmed: &str)
    ensures
        trimmed@ == trim_of(text@),
{
    let rest = trim_start(text);
    let total: usize = rest.unicode_len();
    let mut end: usize = total;
    assert(rest@.take(total as int) =~= rest@);
    while end > 0 && blank(rest.get_char(end - 1))
        invariant
            end <= total == rest@.len(),
            trim_end_of(rest@) == trim_end_of(rest@.take(end as int)),
        decreases end,
    {
        assert(rest@.take(end as int).drop_last() =~= rest@.take(end - 1));
        assert(rest@.take(end as int).last() == rest@[end - 1]);
        end = end - 1;
    }
    proof {
        if end > 0 {
            assert(rest@.take(end as int).last() == rest@[end - 1]);
        }
        assert(rest@.subrange(0, end as int) =~= rest@.take(end as int));
    }
    rest.substring_char(0, end)
}

/// Whether `text` begins with `prefix`.
pub open spec fn begins_with(text: Seq<char>, prefix: Seq<char>) -> bool {
    prefix.len() <= text.len() && text.take(prefix.len() as int) == prefix
}

/// Whether `text` begins with `prefix`.
pub fn starts_with(text: &str, prefix: &str) -> (result: bool)
    ensures
        result == begins_with(text@, prefix@),
{
    let wanted: usize = prefix.unicode_len();
    if wanted <= text.unicode_len() {
        let head = text.substring_char(0, wanted);
        assert(head@ =~= text@.take(wanted as int));
        same_text(head, prefix)
    } else {
        false
    }
}

/// What follows `prefix`, where `text` begins with it.
pub open spec fn without_prefix(text: Seq<char>, prefix: Seq<char>) -> Option<Seq<char>> {
    if begins_with(text, prefix) {
        Some(text.skip(prefix.len() as int))
    } else {
        None
    }
}

/// What follows `prefix`, where `text` begins with it.
pub fn strip_prefix<'a>(text: &'a str, prefix: &str) -> (rest: Option<&'a str>)
    ensures
        match rest {
            Some(rest) => without_prefix(text@, prefix@) == Some(rest@),
            None => without_prefix(text@, prefix@) is None,
        },
{
    if starts_with(text, prefix) {
        let wanted: usize = prefix.unicode_len();
        let total: usize = text.unicode_len();
        let rest = text.substring_char(wanted, total);
        assert(rest@ =~= text@.skip(wanted as int));
        Some(rest)
    } else {
        None
    }
}

/// Whether `part` stands somewhere in `text`.
pub open spec fn holds_part(text: Seq<char>, part: Seq<char>) -> bool {
    exists|at: int|
        0 <= at && at + part.len() <= text.len() && #[trigger] text.subrange(
            at,
            at + part.len(),
        ) == part
}

/// Whether `part` stands somewhere in `text`.
pub fn contains_text(text: &str, part: &str) -> (result: bool)
    ensures
        result == holds_part(text@, part@),
{
    let total: usize = text.unicode_len();
    let wanted: usize = part.unicode_len();
    if wanted > total {
        return false;
    }
    let last: usize = total - wanted;
    let mut at: usize = 0;
    loop
        invariant
            last == total - wanted,
            wanted <= total == text@.len(),
            wanted == part@.len(),
            at <= last,
            forall|k: int|
                0 <= k < at ==> #[trigger] text@.subrange(k, k + part@.len()) != part@,
        decreases last - at,
    {
        if same_text(text.substring_char(at, at + wanted), part) {
            assert(text@.subrange(at as int, at + part@.len()) == part@);
            return true;
        }
        if at == last {
            return false;
        }
        at = at + 1;
    }
}

/// The value of a run of decimal digits, most significant first.
pub open spec fn digits_value(text: Seq<char>) -> nat
    decreases text.len(),
{
    if text.len() == 0 {
        0
    } else {
        10 * digits_value(text.drop_last()) + (text.last() as nat - 48) as nat
    }
}

/// Whether `text` is a non-empty run of decimal digits.
pub open spec fn all_digits(text: Seq<char>) -> bool {
    text.len() > 0 && forall|i: int| 0 <= i < text.len() ==> 48 <= #[trigger] text[i] as int <= 57
}

/// A number at most `limit`: decimal digits, after an optional plus sign.
pub open spec fn parsed_number(text: Seq<char>, limit: nat) -> Option<nat> {
    let digits = if text.len() > 0 && text[0] == '+' {
        text.skip(1)
    } else {
        text
    };
    if all_digits(digits) && digits_value(digits) <= limit {
        Some(digits_value(digits))
    } else {
        None
    }
}

proof fn lemma_digits_prefix(text: Seq<char>, count: int)
    requires
        0 <= count <= text.len(),
        forall|i: int| 0 <= i < text.len() ==> 48 <= #[trigger] text[i] as int <= 57,
    ensures
        digits_value(text.take(count)) <= digits_value(text),
    decreases text.len() - count,
{
    if count < text.len() {
        lemma_digits_prefix(text, count + 1);
        assert(text.take(count + 1).drop_last() =~= text.take(count));
        assert(text.take(count + 1).last() == text[count]);
    } else {
        assert(text.take(count) =~= text);
    }
}

/// Parses a number at most `limit`.
pub fn parse_number(text: &str, limit: u64) -> (number: Option<u64>)
    ensures
        match number {
            Some(number) => parsed_number(text@, limit as nat) == Some(number as nat),
            None => parsed_number(text@, limit as nat) is None,
        },
{
    let total: usize = text.unicode_len();
    let mut start: usize = 0;
    if total > 0 && text.get_char(0) == '+' {
        start = 1;
    }
    let ghost digits = if text@.len() > 0 && text@[0] == '+' {
        text@.skip(1)
    } else {
        text@
    };
    assert(digits =~= text@.skip(start as int));
    if start == total {
        return None;
    }
    let mut value: u64 = 0;
    let mut at: usize = start;
    assert(digits.take(0) =~= Seq::<char>::empty());
    while at < total
        invariant
            start <= at <= total == text@.len(),
            start < total,
            digits == text@.skip(start as int),
            digits == (if text@.len() > 0 && text@[0] == '+' {
                text@.skip(1)
            } else {
                text@
            }),
            forall|i: int| 0 <= i < at - start ==> 48 <= #[trigger] digits[i] as int <= 57,
            value == digits_value(digits.take(at - start)),
            value <= limit,
        decreases total - at,
    {
        let code: u32 = text.get_char(at) as u32;
        assert(digits[at - start] == text@[at as int]);
        if code < 48 || code > 57 {
            assert(!all_digits(digits));
            return None;
        }
        let digit: u64 = (code - 48) as u64;
        assert(digits.take(at - start + 1).drop_last() =~= digits.take(at - start));
        assert(digits.take(at - start + 1).last() == digits[at - start]);
        assert(digits_value(digits.take(at - start + 1)) == 10 * value + digit);
        if value as u128 * 10 + digit as u128 > limit as u128 {
            proof {
                if all_digits(digits) {
                    lemma_digits_prefix(digits, at - start + 1);
                }
            }
            return None;
        }
        value = value * 10 + digit;
        at = at + 1;
    }
    assert(digits.take(total - start) =~= digits);
    Some(value)
}

/// Whether `c` is one of the characters that separate words.
pub fn is_blank_char(c: char) -> (result: bool)
    ensures
        result == is_blank(c),
{
    blank(c)
}

/// The label shortened to `limit` characters, with an ellipsis in place of
/// what was cut.
pub open spec fn shortened(label: Seq<char>, limit: nat) -> Seq<char> {
    if label.len() <= limit {
        label
    } else {
        label.take(if limit == 0 {
            0
        } else {
            limit - 1
        }) + "\u{2026}"@
    }
}

/// Shortens a label to `limit` characters.
pub fn truncate_label(label: &str, limit: usize) -> (text: String)
    ensures
        text@ == shortened(label@, limit as nat),
{
    let total: usize = label.unicode_len();
    if total <= limit {
        label.to_owned()
    } else {
        let kept: usize = if limit == 0 {
            0
        } else {
            limit - 1
        };
        let head = label.substring_char(0, kept);
        assert(head@ =~= label@.take(kept as int));
        joined(head, "\u{2026}")
    }
}

/// The last place of a character.
pub open spec fn last_place(text: Seq<char>, wanted: char) -> Option<int>
    decreases text.len(),
{
    if text.len() == 0 {
        None
    } else if text.last() == wanted {
        Some(text.len() - 1)
    } else {
        last_place(text.drop_last(), wanted)
    }
}

/// Finds the last place of a character.
pub fn find_last(text: &str, wanted: char) -> (place: Option<usize>)
    ensures
        match place {
            Some(at) => at < text@.len() && last_place(text@, wanted) == Some(at as int),
            None => last_place(text@, wanted) is None,
        },
{
    let mut end: usize = text.unicode_len();
    assert(text@.take(end as int) =~= text@);
    while end > 0
        invariant
            end <= text@.len(),
            last_place(text@, wanted) == last_place(text@.take(end as int), wanted),
        decreases end,
    {
        assert(text@.take(end as int).drop_last() =~= text@.take(end - 1));
        assert(text@.take(end as int).last() == text@[end - 1]);
        if text.get_char(end - 1) == wanted {
            return Some(end - 1);
        }
        end = end - 1;
    }
    None
}

/// What stands behind the last place of a character, or the whole text.
pub open spec fn behind_last(text: Seq<char>, wanted: char) -> Seq<char> {
    match last_place(text, wanted) {
        Some(at) => text.skip(at + 1),
        None => text,
    }
}

/// What stands behind the last place of a character, or the whole text.
pub fn after_last(text: &str, wanted: char) -> (rest: &str)
    ensures
        rest@ == behind_last(text@, wanted),
{
    match find_last(text, wanted) {
        Some(at) => {
            let total: usize = text.unicode_len();
            let rest = text.substring_char(at + 1, total);
            assert(rest@ =~= text@.skip(at + 1));
            rest
        },
        None => text,
    }
}

/// The runs of characters between blanks.
pub open spec fn words(text: Seq<char>) -> Seq<Seq<char>>
    decreases text.len(),
{
    if text.len() == 0 {
        Seq::empty()
    } else {
        let before = words(text.drop_last());
        if is_blank(text.last()) {
            before
        } else if text.len() == 1 || is_blank(text[text.len() - 2]) {
            before.push(seq![text.last()])
        } else {
            before.drop_last().push(before.last().push(text.last()))
        }
    }
}

/// The words of a text, with one that is not yet complete.
pub open spec fn words_so_far(complete: Seq<String>, open: Option<Seq<char>>) -> Seq<Seq<char>> {
    let found = Seq::new(complete.len(), |i: int| complete[i]@);
    match open {
        Some(word) => found.push(word),
        None => found,
    }
}

/// Splits a text at its blanks.
pub fn split_words(text: &str) -> (found: Vec<String>)
    ensures
        words_so_far(found@, None) == words(text@),
{
    let total: usize = text.unicode_len();
    let mut found: Vec<String> = Vec::new();
    let mut inside = false;
    let mut start: usize = 0;
    let mut at: usize = 0;
    assert(text@.take(0) =~= Seq::empty());
    assert(words_so_far(found@, None) =~= words(text@.take(0)));
    while at < total
        invariant
            at <= total == text@.len(),
            inside == (at > 0 && !is_blank(text@[at - 1])),
            inside ==> start < at,
            words(text@.take(at as int)) == words_so_far(
                found@,
                if inside {
                    Some(text@.subrange(start as int, at as int))
                } else {
                    None
                },
            ),
        decreases total - at,
    {
        let ghost before = text@.take(at as int);
        let ghost here = text@.take(at + 1);
        let ghost held = found@;
        let c = text.get_char(at);
        proof {
            assert(here.drop_last() =~= before);
            assert(here.last() == c);
            if at > 0 {
                assert(here[here.len() - 2] == text@[at - 1]);
            }
        }
        if is_blank_char(c) {
            if inside {
                let word = text.substring_char(start, at).to_owned();
                found.push(word);
                assert(words_so_far(found@, None) =~= words_so_far(
                    held,
                    Some(text@.subrange(start as int, at as int)),
                ));
            }
            inside = false;
        } else {
            if !inside {
                start = at;
                assert(text@.subrange(start as int, at + 1) =~= seq![c]);
                assert(words(here) =~= words_so_far(found@, Some(seq![c])));
            } else {
                let ghost word = text@.subrange(start as int, at as int);
                assert(word.push(c) =~= text@.subrange(start as int, at + 1));
                assert(words(before).drop_last() =~= words_so_far(found@, None));
                assert(words(before).last() == word);
                assert(words(here) =~= words_so_far(found@, Some(word.push(c))));
            }
            inside = true;
        }
        at = at + 1;
    }
    assert(text@.take(total as int) =~= text@);
    if inside {
        let ghost held = found@;
        let word = text.substring_char(start, total).to_owned();
        found.push(word);
        assert(words_so_far(found@, None) =~= words_so_far(
            held,
            Some(text@.subrange(start as int, total as int)),
        ));
    }
    found
}

/// A number that was written down is read back as itself, wherever it is
/// within the limit.
pub proof fn law_written_numbers_read_back(value: nat, limit: nat)
    ensures
        all_digits(decimal(value)),
        digits_value(decimal(value)) == value,
        value <= limit ==> parsed_number(decimal(value), limit) == Some(value),
        value > limit ==> parsed_number(decimal(value), limit) is None,
        value > 0 ==> decimal(value)[0] != '0',
    decreases value,
{
    if value >= 10 {
        law_written_numbers_read_back(value / 10, limit);
        assert(decimal(value).drop_last() =~= decimal(value / 10));
        assert(decimal(value)[0] == decimal(value / 10)[0]);
    } else {
        assert(decimal(value).drop_last() =~= Seq::<char>::empty());
        assert(digits_value(Seq::<char>::empty()) == 0);
    }
}

/// A number is read out of digits alone, after a plus sign at most, and is
/// what the digits say place by place; anything else is no number.
pub proof fn law_numbers_are_digits(text: Seq<char>, limit: nat)
    ensures
        parsed_number(text, limit) is Some ==> text.len() > 0,
        text.len() > 0 && text[0] != '+' && parsed_number(text, limit) is Some ==> forall|i: int|
            0 <= i < text.len() ==> '0' <= #[trigger] text[i] <= '9',
        parsed_number(text, limit) is Some ==> parsed_number(text, limit)->0 <= limit,
        text.len() > 1 && text[0] != '+' && parsed_number(text, limit) is Some ==> {
            let front = parsed_number(text.drop_last(), limit);
            &&& front is Some
            &&& parsed_number(text, limit)->0 == 10 * front->0 + (text.last() as nat - 48)
        },
{
    if text.len() > 1 && text[0] != '+' && parsed_number(text, limit) is Some {
        let front = text.drop_last();
        assert forall|i: int| 0 <= i < front.len() implies 48 <= #[trigger] front[i] as int
            <= 57 by {
            assert(front[i] == text[i]);
        }
    }
}

/// A text begins with another exactly where its first characters are those of
/// the other; what is left then is the rest, and both together are the text.
pub proof fn law_a_prefix_comes_off(text: Seq<char>, prefix: Seq<char>)
    ensures
        begins_with(text, prefix) <==> prefix.len() <= text.len() && forall|i: int|
            0 <= i < prefix.len() ==> text[i] == #[trigger] prefix[i],
        without_prefix(text, prefix) is Some <==> begins_with(text, prefix),
        without_prefix(text, prefix) is Some ==> prefix + without_prefix(text, prefix)->0 == text,
        begins_with(prefix + text, prefix),
        without_prefix(prefix + text, prefix) == Some(text),
{
    if prefix.len() <= text.len() && forall|i: int|
        0 <= i < prefix.len() ==> text[i] == #[trigger] prefix[i] {
        assert(text.take(prefix.len() as int) =~= prefix);
    }
    if begins_with(text, prefix) {
        assert forall|i: int| 0 <= i < prefix.len() implies text[i] == #[trigger] prefix[i] by {
            assert(text.take(prefix.len() as int)[i] == text[i]);
        }
        assert(prefix + text.skip(prefix.len() as int) =~= text);
    }
    assert((prefix + text).take(prefix.len() as int) =~= prefix);
    assert((prefix + text).skip(prefix.len() as int) =~= text);
}

/// What trimming leaves has no blank at either end, and what it takes away is
/// blanks in front and blanks behind.
pub proof fn law_trimming_takes_blanks_alone(text: Seq<char>)
    ensures
        exists|from: int, to: int|
            {
                &&& 0 <= from <= to <= text.len()
                &&& trim_of(text) == #[trigger] text.subrange(from, to)
                &&& forall|i: int| 0 <= i < from ==> is_blank(#[trigger] text[i])
                &&& forall|i: int| to <= i < text.len() ==> is_blank(#[trigger] text[i])
                &&& from < to ==> !is_blank(text[from]) && !is_blank(text[to - 1])
            },
        trim_of(trim_of(text)) == trim_of(text),
{
    let from = lemma_trimmed_start(text);
    let rest = trim_start_of(text);
    let kept = lemma_trimmed_end(rest);
    let to = from + kept;
    assert(trim_of(text) =~= text.subrange(from, to));
    assert forall|i: int| to <= i < text.len() implies is_blank(#[trigger] text[i]) by {
        assert(rest[i - from] == text[i]);
    }
    if from < to {
        assert(rest[0] == text[from]);
        assert(rest[kept - 1] == text[to - 1]);
        assert(!is_blank(text[from])) by {
            if rest.len() > 0 {
                assert(!is_blank(rest[0]));
            }
        }
        let trimmed = trim_of(text);
        assert(trimmed[0] == text[from]);
        assert(trimmed.last() == text[to - 1]);
        assert(trim_start_of(trimmed) == trimmed);
        assert(trim_end_of(trimmed) == trimmed);
    } else {
        assert(trim_of(text) =~= Seq::<char>::empty());
    }
    assert(trim_of(text) == text.subrange(from, to));
}

proof fn lemma_trimmed_start(text: Seq<char>) -> (from: int)
    ensures
        0 <= from <= text.len(),
        trim_start_of(text) == text.skip(from),
        forall|i: int| 0 <= i < from ==> is_blank(#[trigger] text[i]),
        trim_start_of(text).len() > 0 ==> !is_blank(trim_start_of(text)[0]),
    decreases text.len(),
{
    if text.len() > 0 && is_blank(text[0]) {
        let rest = lemma_trimmed_start(text.skip(1));
        assert(text.skip(1).skip(rest) =~= text.skip(rest + 1));
        assert forall|i: int| 0 <= i < rest + 1 implies is_blank(#[trigger] text[i]) by {
            if i > 0 {
                assert(text.skip(1)[i - 1] == text[i]);
            }
        }
        rest + 1
    } else {
        assert(text.skip(0) =~= text);
        0
    }
}

proof fn lemma_trimmed_end(text: Seq<char>) -> (kept: int)
    ensures
        0 <= kept <= text.len(),
        trim_end_of(text) == text.take(kept),
        forall|i: int| kept <= i < text.len() ==> is_blank(#[trigger] text[i]),
        kept > 0 ==> !is_blank(text[kept - 1]),
    decreases text.len(),
{
    if text.len() > 0 && is_blank(text.last()) {
        let kept = lemma_trimmed_end(text.drop_last());
        assert(text.drop_last().take(kept) =~= text.take(kept));
        assert forall|i: int| kept <= i < text.len() implies is_blank(#[trigger] text[i]) by {
            if i < text.len() - 1 {
                assert(text.drop_last()[i] == text[i]);
            }
        }
        if kept > 0 {
            assert(text.drop_last()[kept - 1] == text[kept - 1]);
        }
        kept
    } else {
        assert(text.take(text.len() as int) =~= text);
        text.len() as int
    }
}

/// A label that fits stays as it is. One that is too long keeps its first
/// characters, ends in an ellipsis, and then has exactly the length asked for.
pub proof fn law_long_labels_are_cut(label: Seq<char>, limit: nat)
    requires
        limit > 0,
    ensures
        label.len() <= limit ==> shortened(label, limit) == label,
        label.len() > limit ==> {
            let cut = shortened(label, limit);
            &&& cut.len() == limit
            &&& cut.last() == '\u{2026}'
            &&& forall|i: int| 0 <= i < limit - 1 ==> (#[trigger] cut[i]) == label[i]
        },
{
    reveal_strlit("\u{2026}");
}

/// The place that is found is the last one that holds the character, and none
/// is found exactly where the character does not stand in the text. What is
/// behind it holds the character no more.
pub proof fn law_the_last_place_is_found(text: Seq<char>, wanted: char)
    ensures
        last_place(text, wanted) is None <==> forall|i: int|
            0 <= i < text.len() ==> (#[trigger] text[i]) != wanted,
        last_place(text, wanted) matches Some(at) ==> {
            &&& 0 <= at < text.len()
            &&& text[at] == wanted
            &&& forall|i: int| at < i < text.len() ==> (#[trigger] text[i]) != wanted
            &&& text.take(at + 1) + behind_last(text, wanted) == text
        },
        last_place(text, wanted) is None ==> behind_last(text, wanted) == text,
    decreases text.len(),
{
    if text.len() > 0 && text.last() != wanted {
        law_the_last_place_is_found(text.drop_last(), wanted);
        assert forall|i: int| 0 <= i < text.len() - 1 implies (#[trigger] text[i])
            == text.drop_last()[i] by {}
    } else if text.len() > 0 {
        assert(text[text.len() - 1] == wanted);
    }
    if last_place(text, wanted) is Some {
        let at = last_place(text, wanted)->0;
        assert(text.take(at + 1) + text.skip(at + 1) =~= text);
    }
}

/// Every word is free of blanks and holds something; the words together are
/// all that is not blank in the text, in its order.
pub proof fn law_words_are_what_is_not_blank(text: Seq<char>)
    ensures
        forall|i: int| 0 <= i < words(text).len() ==> (#[trigger] words(text)[i]).len() > 0,
        forall|i: int, j: int|
            0 <= i < words(text).len() && 0 <= j < words(text)[i].len() ==> !is_blank(
                #[trigger] words(text)[i][j],
            ),
        words(text).flatten() == text.filter(|c: char| !is_blank(c)),
        text.len() > 0 && !is_blank(text.last()) ==> words(text).len() > 0,
    decreases text.len(),
{
    reveal(Seq::filter);
    let inked = |c: char| !is_blank(c);
    if text.len() == 0 {
        assert(words(text).flatten() =~= Seq::<char>::empty());
    } else {
        let front = text.drop_last();
        let before = words(front);
        law_words_are_what_is_not_blank(front);
        if is_blank(text.last()) {
            assert(text.filter(inked) == front.filter(inked));
        } else if text.len() == 1 || is_blank(text[text.len() - 2]) {
            before.lemma_flatten_push(seq![text.last()]);
            assert(words(text).flatten() =~= before.flatten() + seq![text.last()]);
            assert(text.filter(inked) =~= front.filter(inked).push(text.last()));
            assert(words(text).flatten() =~= text.filter(inked));
        } else {
            assert(front.last() == text[text.len() - 2]);
            let first = before.drop_last();
            let grown = before.last().push(text.last());
            assert(before =~= first.push(before.last()));
            first.lemma_flatten_push(before.last());
            first.lemma_flatten_push(grown);
            assert(words(text) == first.push(grown));
            assert(first.flatten() + grown =~= (first.flatten() + before.last()).push(text.last()));
            assert(text.filter(inked) =~= front.filter(inked).push(text.last()));
            assert forall|i: int, j: int|
                0 <= i < words(text).len() && 0 <= j < words(text)[i].len() implies !is_blank(
                #[trigger] words(text)[i][j],
            ) by {
                if i < first.len() {
                    assert(words(text)[i] == before[i]);
                } else if j < before.last().len() {
                    assert(words(text)[i][j] == before[i][j]);
                }
            }
        }
    }
}

/// Where there is no room at all, a label is the ellipsis alone.
pub proof fn law_a_label_without_room_is_an_ellipsis(label: Seq<char>)
    requires
        label.len() > 0,
    ensures
        shortened(label, 0) == "\u{2026}"@,
{
    assert(label.take(0) + "\u{2026}"@ =~= "\u{2026}"@);
}

} // verus!
