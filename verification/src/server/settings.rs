//! A plain-value model of the JSON settings a client sends, with the
//! lookups that configuration keys perform on them.

use vstd::prelude::*;

use crate::text_utils::strings::str_equal;
use crate::text_utils::text_model::{first_index_of, lemma_first_index_of, locate_char, location_at};

verus! {

/// A settings value: what configuration lookups read of a JSON value.
///
/// Objects keep their members in order; numbers, strings, arrays and
/// `null` are all `Other`, since no lookup descends into them.
#[derive(Debug, PartialEq, Eq)]
pub enum SettingsValue {
    /// A JSON boolean.
    Bool(bool),
    /// A JSON object, as its members in order.
    Object(Vec<(String, SettingsValue)>),
    /// Any other JSON value.
    Other,
}

/// The member named `key` among `entries` (the first one, if repeated).
pub open spec fn entries_get(entries: Seq<(String, SettingsValue)>, key: Seq<char>) -> Option<
    SettingsValue,
>
    decreases entries.len(),
{
    if entries.len() == 0 {
        None
    } else if entries[0].0@ == key {
        Some(entries[0].1)
    } else {
        entries_get(entries.drop_first(), key)
    }
}

/// `Value::get(key)`: the member named `key` of an object.
pub open spec fn settings_get(value: SettingsValue, key: Seq<char>) -> Option<SettingsValue> {
    match value {
        SettingsValue::Object(entries) => entries_get(entries@, key),
        _ => None,
    }
}

/// `Value::as_bool`.
pub open spec fn settings_as_bool(value: SettingsValue) -> Option<bool> {
    match value {
        SettingsValue::Bool(b) => Some(b),
        _ => None,
    }
}

/// The boolean found by following `path` member by member from `value`.
pub open spec fn settings_at(value: SettingsValue, path: Seq<Seq<char>>) -> Option<bool>
    decreases path.len(),
{
    if path.len() == 0 {
        settings_as_bool(value)
    } else {
        match settings_get(value, path[0]) {
            Some(member) => settings_at(member, path.drop_first()),
            None => None,
        }
    }
}

/// `str::split(c)`: the pieces of `s` between occurrences of `c`.
pub open spec fn split_on(s: Seq<char>, c: char) -> Seq<Seq<char>>
    decreases s.len(),
{
    match first_index_of(s, c) {
        None => seq![s],
        Some(i) => {
            proof {
                lemma_first_index_of(s, c);
            }
            seq![s.take(i as int)] + split_on(s.skip(i + 1 as int), c)
        },
    }
}

proof fn lemma_entries_get(entries: Seq<(String, SettingsValue)>, key: Seq<char>, i: int)
    requires
        0 <= i <= entries.len(),
        forall|j: int| 0 <= j < i ==> entries[j].0@ != key,
    ensures
        entries_get(entries, key) == entries_get(entries.skip(i), key),
    decreases i,
{
    if i > 0 {
        lemma_entries_get(entries, key, i - 1);
        assert(entries.skip(i - 1)[0] == entries[i - 1]);
        assert(entries.skip(i - 1).drop_first() =~= entries.skip(i));
    } else {
        assert(entries.skip(0) =~= entries);
    }
}

/// `Value::get(key)`.
pub fn settings_get_exec<'a>(value: &'a SettingsValue, key: &str) -> (r: Option<&'a SettingsValue>)
    ensures
        match r {
            Some(member) => settings_get(*value, key@) == Some(*member),
            None => settings_get(*value, key@) is None,
        },
{
    match value {
        SettingsValue::Object(entries) => {
            let mut i: usize = 0;
            while i < entries.len()
                invariant
                    0 <= i <= entries@.len(),
                    settings_get(*value, key@) == entries_get(entries@, key@),
                    forall|j: int| 0 <= j < i ==> entries@[j].0@ != key@,
                decreases entries@.len() - i,
            {
                if str_equal(entries[i].0.as_str(), key) {
                    proof {
                        lemma_entries_get(entries@, key@, i as int);
                        assert(entries@.skip(i as int)[0] == entries@[i as int]);
                        assert(entries@[i as int].0@ == key@);
                        assert(entries_get(entries@.skip(i as int), key@) == Some(
                            entries@[i as int].1,
                        ));
                    }
                    return Some(&entries[i].1);
                }
                i = i + 1;
            }
            proof {
                lemma_entries_get(entries@, key@, i as int);
                assert(entries@.skip(i as int).len() == 0);
            }
            None
        },
        _ => None,
    }
}

/// `Value::as_bool`.
pub fn settings_as_bool_exec(value: &SettingsValue) -> (r: Option<bool>)
    ensures
        r == settings_as_bool(*value),
{
    match value {
        SettingsValue::Bool(b) => Some(*b),
        _ => None,
    }
}

/// The views of a path's segments.
pub open spec fn path_view(path: Seq<String>) -> Seq<Seq<char>> {
    path.map_values(|segment: String| segment@)
}

/// Follows `path` member by member from `value`, then reads a boolean.
pub fn settings_at_path(value: &SettingsValue, path: &Vec<String>) -> (r: Option<bool>)
    ensures
        r == settings_at(*value, path_view(path@)),
{
    let mut current = value;
    let mut i: usize = 0;
    proof {
        assert(path_view(path@).skip(0) =~= path_view(path@));
    }
    while i < path.len()
        invariant
            0 <= i <= path@.len(),
            settings_at(*value, path_view(path@)) == settings_at(
                *current,
                path_view(path@).skip(i as int),
            ),
        decreases path@.len() - i,
    {
        let ghost rest = path_view(path@).skip(i as int);
        match settings_get_exec(current, path[i].as_str()) {
            Some(member) => {
                proof {
                    assert(rest[0] == path@[i as int]@);
                    assert(rest.drop_first() =~= path_view(path@).skip(i + 1));
                }
                current = member;
            },
            None => {
                proof {
                    assert(rest[0] == path@[i as int]@);
                }
                return None;
            },
        }
        i = i + 1;
    }
    proof {
        assert(path_view(path@).skip(i as int) =~= Seq::<Seq<char>>::empty());
    }
    settings_as_bool_exec(current)
}

/// Follows the dot-separated segments of `dotted` member by member from
/// `value`, then reads a boolean.
pub fn settings_at_dotted(value: &SettingsValue, dotted: &str) -> (r: Option<bool>)
    ensures
        r == settings_at(*value, split_on(dotted@, '.')),
    decreases dotted@.len(),
{
    proof {
        lemma_first_index_of(dotted@, '.');
    }
    match locate_char(dotted, '.') {
        None => {
            proof {
                assert(split_on(dotted@, '.') == seq![dotted@]);
                let pieces = seq![dotted@];
                assert(pieces.drop_first() =~= Seq::<Seq<char>>::empty());
                assert(pieces[0] == dotted@);
                assert(forall|m: SettingsValue| settings_at(m, Seq::<Seq<char>>::empty()) == settings_as_bool(m));
            }
            match settings_get_exec(value, dotted) {
                Some(member) => settings_as_bool_exec(member),
                None => None,
            }
        },
        Some(location) => {
            let ghost k = first_index_of(dotted@, '.')->0;
            proof {
                assert(location == location_at(dotted@, k));
            }
            let char_count = dotted.unicode_len();
            let head = dotted.substring_char(0, location.char_index);
            let tail = dotted.substring_char(location.char_index + 1, char_count);
            proof {
                assert(head@ =~= dotted@.take(k as int));
                assert(tail@ =~= dotted@.skip(k + 1 as int));
                let pieces = split_on(dotted@, '.');
                assert(pieces[0] == head@);
                assert(pieces.drop_first() =~= split_on(tail@, '.'));
            }
            match settings_get_exec(value, head) {
                Some(member) => settings_at_dotted(member, tail),
                None => None,
            }
        },
    }
}

} // verus!
