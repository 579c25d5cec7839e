//! The processor time of this process, out of the status that Linux reports.
use vstd::prelude::*;

use crate::text::{after_last, find_last, parse_number, split_words, trim};
use crate::text;

verus! {

/// The processor ticks in a status line: the twelfth and thirteenth field
/// behind the name of the command, which stands in parentheses.
pub open spec fn ticks_in(stat: Seq<char>) -> Option<nat> {
    if text::last_place(stat, ')') is None {
        None
    } else {
        let fields = text::words(text::trim_of(text::behind_last(stat, ')')));
        if fields.len() < 13 {
            None
        } else {
            match (
                text::parsed_number(fields[11], u64::MAX as nat),
                text::parsed_number(fields[12], u64::MAX as nat),
            ) {
                (Some(user), Some(system)) => Some(user + system),
                _ => None,
            }
        }
    }
}

/// Reads the processor ticks out of a status line.
pub fn parse_process_ticks(stat: &str) -> (ticks: Option<u64>)
    requires
        ticks_in(stat@) matches Some(ticks) ==> ticks <= u64::MAX,
    ensures
        match ticks {
            Some(ticks) => ticks_in(stat@) == Some(ticks as nat),
            None => ticks_in(stat@) is None,
        },
{
    match find_last(stat, ')') {
        Some(_) => {},
        None => {
            return None;
        },
    }
    let rest = trim(after_last(stat, ')'));
    let fields = split_words(rest);
    assert(text::words_so_far(fields@, None).len() == fields@.len());
    if fields.len() < 13 {
        return None;
    }
    assert(text::words_so_far(fields@, None)[11] == fields@[11]@);
    assert(text::words_so_far(fields@, None)[12] == fields@[12]@);
    match (
        parse_number(fields[11].as_str(), u64::MAX),
        parse_number(fields[12].as_str(), u64::MAX),
    ) {
        (Some(user), Some(system)) => Some(user + system),
        _ => None,
    }
}

/// The processor ticks of this process, where its status could be read.
pub fn read_process_ticks(stat: Option<&str>) -> (ticks: Option<u64>)
    requires
        stat matches Some(stat) ==> (ticks_in(stat@) matches Some(ticks) ==> ticks <= u64::MAX),
    ensures
        match stat {
            Some(stat) => match ticks {
                Some(ticks) => ticks_in(stat@) == Some(ticks as nat),
                None => ticks_in(stat@) is None,
            },
            None => ticks is None,
        },
{
    match stat {
        Some(stat) => parse_process_ticks(stat),
        None => None,
    }
}

/// The ticks are the sum of the twelfth and the thirteenth field behind the last
/// parenthesis, where both are numbers, and there are none otherwise.
pub proof fn law_ticks_are_user_and_system_time(stat: Seq<char>)
    ensures
        text::last_place(stat, ')') is None ==> ticks_in(stat) is None,
        text::last_place(stat, ')') is Some ==> {
            let fields = text::words(text::trim_of(text::behind_last(stat, ')')));
            &&& fields.len() < 13 ==> ticks_in(stat) is None
            &&& fields.len() >= 13 ==> {
                let user = text::parsed_number(fields[11], u64::MAX as nat);
                let system = text::parsed_number(fields[12], u64::MAX as nat);
                &&& user is Some && system is Some ==> ticks_in(stat) == Some(
                    (user->0 + system->0) as nat,
                )
                &&& user is None || system is None ==> ticks_in(stat) is None
            }
        },
{
}

} // verus!
