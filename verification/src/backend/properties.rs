//! Property lists, as the audio server hands them out.
use vstd::prelude::*;

use crate::text::{parse_number, same_text};
use crate::text;

verus! {

/// Keys and values in the order in which the server lists them.
#[derive(Debug)]
pub struct Properties {
    pub items: Vec<(String, String)>,
}

impl View for Properties {
    type V = Seq<(Seq<char>, Seq<char>)>;

    open spec fn view(&self) -> Seq<(Seq<char>, Seq<char>)> {
        Seq::new(self.items@.len(), |i: int| (self.items@[i].0@, self.items@[i].1@))
    }
}

/// The value of the first entry with a key.
pub open spec fn property(items: Seq<(Seq<char>, Seq<char>)>, key: Seq<char>) -> Option<Seq<char>>
    decreases items.len(),
{
    if items.len() == 0 {
        None
    } else if items[0].0 == key {
        Some(items[0].1)
    } else {
        property(items.skip(1), key)
    }
}

/// The characters behind an optional text.
pub open spec fn shown(text: Option<&str>) -> Option<Seq<char>> {
    match text {
        Some(text) => Some(text@),
        None => None,
    }
}

/// The characters behind an optional owned text.
pub open spec fn held(text: Option<String>) -> Option<Seq<char>> {
    match text {
        Some(text) => Some(text@),
        None => None,
    }
}

/// `first`, or `second` where there is no `first`.
pub open spec fn either(first: Option<Seq<char>>, second: Option<Seq<char>>) -> Option<Seq<char>> {
    if first is Some {
        first
    } else {
        second
    }
}

/// `value`, or `fallback` where there is none.
pub open spec fn or_else(value: Option<Seq<char>>, fallback: Seq<char>) -> Seq<char> {
    match value {
        Some(value) => value,
        None => fallback,
    }
}

impl Properties {
    pub fn new() -> (properties: Self)
        ensures
            properties@ == Seq::<(Seq<char>, Seq<char>)>::empty(),
    {
        let properties = Properties { items: Vec::new() };
        assert(properties@ =~= Seq::<(Seq<char>, Seq<char>)>::empty());
        properties
    }

    /// Adds an entry behind all others.
    pub fn add_entry(&mut self, key: &str, value: &str)
        ensures
            final(self)@ == old(self)@.push((key@, value@)),
    {
        self.items.push((key.to_owned(), value.to_owned()));
        assert(self@ =~= old(self)@.push((key@, value@)));
    }

    /// The value of the first entry with a key.
    pub fn get(&self, key: &str) -> (value: Option<&str>)
        ensures
            shown(value) == property(self@, key@),
    {
        let mut at: usize = 0;
        assert(self@.skip(0) =~= self@);
        while at < self.items.len()
            invariant
                at <= self.items@.len(),
                property(self@, key@) == property(self@.skip(at as int), key@),
            decreases self.items@.len() - at,
        {
            assert(self@.skip(at as int)[0] == self@[at as int]);
            if same_text(self.items[at].0.as_str(), key) {
                return Some(self.items[at].1.as_str());
            }
            assert(self@.skip(at as int).skip(1) =~= self@.skip(at + 1));
            at = at + 1;
        }
        None
    }

    /// The value of the first entry with a key, as an owned text.
    pub fn get_owned(&self, key: &str) -> (value: Option<String>)
        ensures
            held(value) == property(self@, key@),
    {
        match self.get(key) {
            Some(value) => Some(value.to_owned()),
            None => None,
        }
    }
}

/// The number in a property.
pub open spec fn parsed_property(value: Option<Seq<char>>) -> Option<u32> {
    match value {
        Some(value) => match text::parsed_number(value, u32::MAX as nat) {
            Some(number) => Some(number as u32),
            None => None,
        },
        None => None,
    }
}

/// Reads a number out of a property.
pub fn parse_property(value: Option<&str>) -> (number: Option<u32>)
    ensures
        number == parsed_property(shown(value)),
{
    match value {
        Some(value) => match parse_number(value, u32::MAX as u64) {
            Some(number) => Some(number as u32),
            None => None,
        },
        None => None,
    }
}

/// Whether a property says yes.
pub open spec fn says_yes(value: Option<Seq<char>>) -> bool {
    value == Some("true"@) || value == Some("1"@) || value == Some("yes"@)
}

/// Whether a property says yes.
pub fn property_is_true(value: Option<&str>) -> (result: bool)
    ensures
        result == says_yes(shown(value)),
{
    match value {
        Some(value) => same_text(value, "true") || same_text(value, "1") || same_text(value, "yes"),
        None => false,
    }
}

/// Whether a property holds exactly this text.
pub fn property_is(value: Option<&str>, wanted: &str) -> (result: bool)
    ensures
        result == (shown(value) == Some(wanted@)),
{
    match value {
        Some(value) => same_text(value, wanted),
        None => false,
    }
}

/// A text in double quotes, with backslashes and quotes escaped.
pub open spec fn escaped(value: Seq<char>) -> Seq<char>
    decreases value.len(),
{
    if value.len() == 0 {
        Seq::empty()
    } else {
        let rest = escaped(value.drop_last());
        if value.last() == '\\' {
            rest.push('\\').push('\\')
        } else if value.last() == '"' {
            rest.push('\\').push('"')
        } else {
            rest.push(value.last())
        }
    }
}

/// A text as a quoted value of the server's configuration language.
pub open spec fn spa_quoted(value: Seq<char>) -> Seq<char> {
    seq!['"'] + escaped(value) + seq!['"']
}

/// Quotes a text for the server's configuration language.
pub fn spa_string(value: &str) -> (quoted: String)
    ensures
        quoted@ == spa_quoted(value@),
{
    proof {
        reveal_strlit("\"");
        reveal_strlit("\\\\");
        reveal_strlit("\\\"");
    }
    let total: usize = value.unicode_len();
    let mut quoted = "\"".to_owned();
    assert(quoted@ =~= seq!['"'] + escaped(value@.take(0)));
    let mut at: usize = 0;
    while at < total
        invariant
            at <= total == value@.len(),
            quoted@ == seq!['"'] + escaped(value@.take(at as int)),
            "\\\\"@ == seq!['\\', '\\'],
            "\\\""@ == seq!['\\', '"'],
        decreases total - at,
    {
        let c = value.get_char(at);
        let ghost before = quoted@;
        if c == '\\' {
            quoted.append("\\\\");
        } else if c == '"' {
            quoted.append("\\\"");
        } else {
            quoted.append(value.substring_char(at, at + 1));
        }
        at = at + 1;
        proof {
            assert(value@.take(at as int).drop_last() =~= value@.take(at - 1));
            assert(value@.take(at as int).last() == c);
            assert(quoted@ =~= seq!['"'] + escaped(value@.take(at as int)));
        }
    }
    assert(value@.take(at as int) =~= value@);
    quoted.append("\"");
    assert(quoted@ =~= spa_quoted(value@));
    quoted
}

/// A property is the value of the first entry with its key, and it is missing
/// exactly where no entry has the key.
pub proof fn law_the_first_entry_of_a_key_counts(
    items: Seq<(Seq<char>, Seq<char>)>,
    key: Seq<char>,
    at: int,
)
    requires
        0 <= at < items.len(),
    ensures
        items[at].0 == key && (forall|i: int| 0 <= i < at ==> (#[trigger] items[i]).0 != key)
            ==> property(items, key) == Some(items[at].1),
        (forall|i: int| 0 <= i < items.len() ==> (#[trigger] items[i]).0 != key) ==> property(
            items,
            key,
        ) is None,
    decreases items.len(),
{
    let rest = items.skip(1);
    assert forall|i: int| 0 <= i < rest.len() implies (#[trigger] rest[i]) == items[i + 1] by {}
    if items[0].0 != key {
        if at > 0 {
            assert(rest[at - 1] == items[at]);
            law_the_first_entry_of_a_key_counts(rest, key, at - 1);
            assert(property(items, key) == property(rest, key));
        } else if rest.len() > 0 {
            law_the_first_entry_of_a_key_counts(rest, key, 0);
        }
    } else if at > 0 {
        assert(items[0].0 == key);
    }
}

/// A property is read as a number exactly where it is one of at most 32 bits,
/// and it says yes in three words only.
pub proof fn law_properties_are_read(value: nat)
    ensures
        value <= u32::MAX ==> parsed_property(Some(text::decimal(value))) == Some(value as u32),
        value > u32::MAX ==> parsed_property(Some(text::decimal(value))) is None,
        parsed_property(None) is None,
        says_yes(Some("true"@)),
        says_yes(Some("1"@)),
        says_yes(Some("yes"@)),
        !says_yes(None),
        !says_yes(Some("false"@)),
        !says_yes(Some("0"@)),
        !says_yes(Some("no"@)),
{
    text::law_written_numbers_read_back(value, u32::MAX as nat);
    reveal_strlit("true");
    reveal_strlit("1");
    reveal_strlit("yes");
    reveal_strlit("false");
    reveal_strlit("0");
    reveal_strlit("no");
    assert("0"@[0] == '0' && "1"@[0] == '1');
    assert("false"@.len() == 5);
    assert("no"@.len() == 2);
}

/// A quoted text stands between two quotes, every quote and backslash in it is
/// behind a backslash, and every other character is as it was.
pub proof fn law_quoting_escapes_quotes_and_backslashes(front: Seq<char>, last: char)
    ensures
        escaped(Seq::<char>::empty()) == Seq::<char>::empty(),
        last == '"' ==> escaped(front.push(last)) == escaped(front).push('\\').push('"'),
        last == '\\' ==> escaped(front.push(last)) == escaped(front).push('\\').push('\\'),
        last != '"' && last != '\\' ==> escaped(front.push(last)) == escaped(front).push(last),
        spa_quoted(front)[0] == '"',
        spa_quoted(front).last() == '"',
        spa_quoted(front).len() == escaped(front).len() + 2,
        spa_quoted(front).subrange(1, spa_quoted(front).len() - 1) == escaped(front),
{
    assert(front.push(last).drop_last() =~= front);
    assert(spa_quoted(front).subrange(1, spa_quoted(front).len() - 1) =~= escaped(front));
}

/// The first of two values counts where there is one, and a fallback only where
/// there is none.
pub proof fn law_the_first_value_counts(
    first: Option<Seq<char>>,
    second: Option<Seq<char>>,
    fallback: Seq<char>,
)
    ensures
        first is Some ==> either(first, second) == first,
        first is None ==> either(first, second) == second,
        first matches Some(value) ==> or_else(first, fallback) == value,
        first is None ==> or_else(first, fallback) == fallback,
{
}

} // verus!
