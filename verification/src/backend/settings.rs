//! The settings of a connection profile: sections of keys and values, as the
//! service hands them out and takes them back. They are a map of maps, kept
//! as lists in which no name of a section and no key of a section stands
//! twice; what is made and changed here keeps them so.

use vstd::prelude::*;
use zbus::zvariant::OwnedValue;
use crate::backend::values::Entry;
use crate::text::str_eq;

verus! {

/// One section of a profile: a name and the settings under it.
#[derive(Debug)]
pub struct Section {
    pub name: String,
    pub entries: Vec<Entry>,
}

/// The entry at `i` is the first with the key `key`.
pub open spec fn key_at(entries: Seq<Entry>, key: Seq<char>, i: int) -> bool {
    &&& 0 <= i < entries.len()
    &&& entries[i].key@ == key
    &&& forall|j: int| 0 <= j < i ==> (#[trigger] entries[j]).key@ != key
}

/// The value under `key`: that of the first entry with this key.
pub open spec fn lookup(entries: Seq<Entry>, key: Seq<char>) -> Option<OwnedValue> {
    if exists|i: int| key_at(entries, key, i) {
        Some(entries[choose|i: int| key_at(entries, key, i)].value)
    } else {
        None
    }
}

/// The section at `i` is the first with the name `name`.
pub open spec fn section_at(settings: Seq<Section>, name: Seq<char>, i: int) -> bool {
    &&& 0 <= i < settings.len()
    &&& settings[i].name@ == name
    &&& forall|j: int| 0 <= j < i ==> (#[trigger] settings[j]).name@ != name
}

/// The entries of the section `name`: those of the first section with this
/// name.
pub open spec fn section_entries(settings: Seq<Section>, name: Seq<char>) -> Option<Seq<Entry>> {
    if exists|i: int| section_at(settings, name, i) {
        Some(settings[choose|i: int| section_at(settings, name, i)].entries@)
    } else {
        None
    }
}

/// The value under `key` in the section `name`.
pub open spec fn setting(settings: Seq<Section>, name: Seq<char>, key: Seq<char>) -> Option<
    OwnedValue,
> {
    match section_entries(settings, name) {
        Some(entries) => lookup(entries, key),
        None => None,
    }
}

/// No key occurs twice.
pub open spec fn distinct_keys(entries: Seq<Entry>) -> bool {
    forall|i: int, j: int|
        0 <= i < j < entries.len() ==> (#[trigger] entries[i]).key@ != (#[trigger] entries[j]).key@
}

/// No name of a section occurs twice.
pub open spec fn distinct_names(settings: Seq<Section>) -> bool {
    forall|i: int, j: int|
        0 <= i < j < settings.len() ==> (#[trigger] settings[i]).name@
            != (#[trigger] settings[j]).name@
}

/// The invariant of settings: they are a map of maps. No name of a section
/// occurs twice, and within a section no key.
pub open spec fn are_settings(settings: Seq<Section>) -> bool {
    &&& distinct_names(settings)
    &&& forall|i: int| 0 <= i < settings.len() ==> distinct_keys((#[trigger] settings[i]).entries@)
}

/// There is one first entry with a key, if any.
pub proof fn lemma_key_at_unique(entries: Seq<Entry>, key: Seq<char>, i: int, j: int)
    requires
        key_at(entries, key, i),
        key_at(entries, key, j),
    ensures
        i == j,
{
    if i < j {
        assert(entries[i].key@ != key);
    } else if j < i {
        assert(entries[j].key@ != key);
    }
}

/// There is one first section with a name, if any.
pub proof fn lemma_section_at_unique(settings: Seq<Section>, name: Seq<char>, i: int, j: int)
    requires
        section_at(settings, name, i),
        section_at(settings, name, j),
    ensures
        i == j,
{
    if i < j {
        assert(settings[i].name@ != name);
    } else if j < i {
        assert(settings[j].name@ != name);
    }
}

/// Where the first entry with the key `key` stands.
pub fn find_entry(entries: &Vec<Entry>, key: &str) -> (found: Option<usize>)
    ensures
        match found {
            Some(i) => key_at(entries@, key@, i as int) && lookup(entries@, key@) == Some(
                entries@[i as int].value,
            ),
            None => lookup(entries@, key@) is None && forall|i: int|
                0 <= i < entries@.len() ==> (#[trigger] entries@[i]).key@ != key@,
        },
{
    let mut i: usize = 0;
    while i < entries.len()
        invariant
            i <= entries.len(),
            forall|j: int| 0 <= j < i ==> (#[trigger] entries@[j]).key@ != key@,
        decreases entries.len() - i,
    {
        if str_eq(entries[i].key.as_str(), key) {
            proof {
                assert(key_at(entries@, key@, i as int));
                let k = choose|k: int| key_at(entries@, key@, k);
                lemma_key_at_unique(entries@, key@, k, i as int);
            }
            return Some(i);
        }
        i += 1;
    }
    proof {
        if exists|k: int| key_at(entries@, key@, k) {
            let k = choose|k: int| key_at(entries@, key@, k);
            assert(entries@[k].key@ != key@);
        }
    }
    None
}

/// The value under `key`, if there is one.
pub fn get_value<'a>(entries: &'a Vec<Entry>, key: &str) -> (value: Option<&'a OwnedValue>)
    ensures
        match value {
            Some(v) => lookup(entries@, key@) == Some(*v),
            None => lookup(entries@, key@) is None,
        },
{
    match find_entry(entries, key) {
        Some(i) => Some(&entries[i].value),
        None => None,
    }
}

/// Where the first section with the name `name` stands.
pub fn find_section(settings: &Vec<Section>, name: &str) -> (found: Option<usize>)
    ensures
        match found {
            Some(i) => section_at(settings@, name@, i as int) && section_entries(settings@, name@)
                == Some(settings@[i as int].entries@),
            None => section_entries(settings@, name@) is None && forall|i: int|
                0 <= i < settings@.len() ==> (#[trigger] settings@[i]).name@ != name@,
        },
{
    let mut i: usize = 0;
    while i < settings.len()
        invariant
            i <= settings.len(),
            forall|j: int| 0 <= j < i ==> (#[trigger] settings@[j]).name@ != name@,
        decreases settings.len() - i,
    {
        if str_eq(settings[i].name.as_str(), name) {
            proof {
                assert(section_at(settings@, name@, i as int));
                let k = choose|k: int| section_at(settings@, name@, k);
                lemma_section_at_unique(settings@, name@, k, i as int);
            }
            return Some(i);
        }
        i += 1;
    }
    proof {
        if exists|k: int| section_at(settings@, name@, k) {
            let k = choose|k: int| section_at(settings@, name@, k);
            assert(settings@[k].name@ != name@);
        }
    }
    None
}

/// The value under `key` in the section `name`, if there is one.
pub fn get_setting<'a>(settings: &'a Vec<Section>, name: &str, key: &str) -> (value: Option<
    &'a OwnedValue,
>)
    ensures
        match value {
            Some(v) => setting(settings@, name@, key@) == Some(*v),
            None => setting(settings@, name@, key@) is None,
        },
{
    match find_section(settings, name) {
        Some(i) => get_value(&settings[i].entries, key),
        None => None,
    }
}

/// Puts `value` under `key`, in place of what stood there. The other keys
/// keep their values.
pub fn put_entry(entries: &mut Vec<Entry>, key: String, value: OwnedValue)
    ensures
        lookup(final(entries)@, key@) == Some(value),
        forall|other: Seq<char>|
            other != key@ ==> lookup(final(entries)@, other) == lookup(old(entries)@, other),
        distinct_keys(old(entries)@) ==> distinct_keys(final(entries)@),
        forall|j: int|
            0 <= j < final(entries)@.len() ==> (#[trigger] final(entries)@[j]).value == value
                || old(entries)@.contains(final(entries)@[j]),
{
    let ghost before = entries@;
    let ghost name = key@;
    match find_entry(entries, key.as_str()) {
        Some(i) => {
            entries.set(i, Entry { key, value });
            proof {
                assert forall|j: int| 0 <= j < entries@.len() implies (#[trigger] entries@[j]).key@
                    == before[j].key@ by {}
                assert forall|j: int| 0 <= j < entries@.len() implies (#[trigger] entries@[j]).value
                    == value || before.contains(entries@[j]) by {
                    if j != i {
                        assert(before[j] == entries@[j]);
                    }
                }
                assert(key_at(entries@, name, i as int)) by {
                    assert forall|j: int| 0 <= j < i implies (#[trigger] entries@[j]).key@ != name by {
                        assert(before[j].key@ != name);
                    }
                }
                let k = choose|k: int| key_at(entries@, name, k);
                lemma_key_at_unique(entries@, name, k, i as int);
                assert forall|other: Seq<char>| other != name implies lookup(entries@, other)
                    == lookup(before, other) by {
                    lemma_same_keys_same_lookup(before, entries@, other, i as int);
                }
            }
        },
        None => {
            entries.push(Entry { key, value });
            proof {
                let n = before.len() as int;
                assert forall|j: int| 0 <= j < entries@.len() implies (#[trigger] entries@[j]).value
                    == value || before.contains(entries@[j]) by {
                    if j < n {
                        assert(before[j] == entries@[j]);
                    }
                }
                if distinct_keys(before) {
                    assert forall|a: int, b: int| 0 <= a < b < entries@.len() implies (
                    #[trigger] entries@[a]).key@ != (#[trigger] entries@[b]).key@ by {
                        if b < n {
                            assert(before[a].key@ != before[b].key@);
                        } else {
                            assert(before[a].key@ != name);
                        }
                    }
                }
                assert(key_at(entries@, name, n)) by {
                    assert forall|j: int| 0 <= j < n implies (#[trigger] entries@[j]).key@ != name by {
                        assert(before[j].key@ != name);
                    }
                }
                let k = choose|k: int| key_at(entries@, name, k);
                lemma_key_at_unique(entries@, name, k, n);
                assert forall|other: Seq<char>| other != name implies lookup(entries@, other)
                    == lookup(before, other) by {
                    lemma_pushed_key_keeps_lookup(before, entries@, other);
                }
            }
        },
    }
}

/// A list that differs from another only at one place, under a key that is
/// not asked for, gives the same value.
proof fn lemma_same_keys_same_lookup(a: Seq<Entry>, b: Seq<Entry>, key: Seq<char>, at: int)
    requires
        a.len() == b.len(),
        0 <= at < a.len(),
        a[at].key@ != key,
        b[at].key@ != key,
        forall|j: int| 0 <= j < a.len() && j != at ==> a[j] == b[j],
    ensures
        lookup(a, key) == lookup(b, key),
{
    assert forall|i: int| key_at(a, key, i) == key_at(b, key, i) by {
        if key_at(a, key, i) {
            assert(i != at);
            assert forall|j: int| 0 <= j < i implies (#[trigger] b[j]).key@ != key by {
                if j != at {
                    assert(a[j].key@ != key);
                }
            }
        }
        if key_at(b, key, i) {
            assert(i != at);
            assert forall|j: int| 0 <= j < i implies (#[trigger] a[j]).key@ != key by {
                if j != at {
                    assert(b[j].key@ != key);
                }
            }
        }
    }
    if exists|i: int| key_at(a, key, i) {
        let i = choose|i: int| key_at(a, key, i);
        assert(key_at(b, key, i));
        let k = choose|k: int| key_at(b, key, k);
        lemma_key_at_unique(b, key, i, k);
    } else {
        assert forall|i: int| !key_at(b, key, i) by {
            assert(key_at(a, key, i) == key_at(b, key, i));
        }
    }
}

/// An entry added at the end under another key leaves the value under `key`
/// as it was.
proof fn lemma_pushed_key_keeps_lookup(a: Seq<Entry>, b: Seq<Entry>, key: Seq<char>)
    requires
        b.len() == a.len() + 1,
        forall|j: int| 0 <= j < a.len() ==> a[j] == b[j],
        b[a.len() as int].key@ != key,
    ensures
        lookup(a, key) == lookup(b, key),
{
    assert forall|i: int| key_at(a, key, i) == key_at(b, key, i) by {
        if key_at(a, key, i) {
            assert forall|j: int| 0 <= j < i implies (#[trigger] b[j]).key@ != key by {
                assert(a[j].key@ != key);
            }
        }
        if key_at(b, key, i) {
            assert(i != a.len());
            assert forall|j: int| 0 <= j < i implies (#[trigger] a[j]).key@ != key by {
                assert(b[j].key@ != key);
            }
        }
    }
    if exists|i: int| key_at(a, key, i) {
        let i = choose|i: int| key_at(a, key, i);
        assert(key_at(b, key, i));
        let k = choose|k: int| key_at(b, key, k);
        lemma_key_at_unique(b, key, i, k);
    } else {
        assert forall|i: int| !key_at(b, key, i) by {
            assert(key_at(a, key, i) == key_at(b, key, i));
        }
    }
}

/// Settings that differ from others only in one section, of a name that is
/// not asked for, give the same entries.
proof fn lemma_same_names_same_section(a: Seq<Section>, b: Seq<Section>, name: Seq<char>, at: int)
    requires
        a.len() == b.len(),
        0 <= at < a.len(),
        a[at].name@ != name,
        b[at].name@ != name,
        forall|j: int| 0 <= j < a.len() && j != at ==> a[j] == b[j],
    ensures
        section_entries(a, name) == section_entries(b, name),
{
    assert forall|i: int| section_at(a, name, i) == section_at(b, name, i) by {
        if section_at(a, name, i) {
            assert forall|j: int| 0 <= j < i implies (#[trigger] b[j]).name@ != name by {
                if j != at {
                    assert(a[j].name@ != name);
                }
            }
        }
        if section_at(b, name, i) {
            assert forall|j: int| 0 <= j < i implies (#[trigger] a[j]).name@ != name by {
                if j != at {
                    assert(b[j].name@ != name);
                }
            }
        }
    }
    if exists|i: int| section_at(a, name, i) {
        let i = choose|i: int| section_at(a, name, i);
        assert(section_at(b, name, i));
        let k = choose|k: int| section_at(b, name, k);
        lemma_section_at_unique(b, name, i, k);
    } else {
        assert forall|i: int| !section_at(b, name, i) by {
            assert(section_at(a, name, i) == section_at(b, name, i));
        }
    }
}

/// A section added at the end leaves the sections of other names as they
/// were.
proof fn lemma_pushed_section_keeps_others(a: Seq<Section>, b: Seq<Section>, name: Seq<char>)
    requires
        b.len() == a.len() + 1,
        forall|j: int| 0 <= j < a.len() ==> a[j] == b[j],
        b[a.len() as int].name@ != name,
    ensures
        section_entries(a, name) == section_entries(b, name),
{
    assert forall|i: int| section_at(a, name, i) == section_at(b, name, i) by {
        if section_at(a, name, i) {
            assert forall|j: int| 0 <= j < i implies (#[trigger] b[j]).name@ != name by {
                assert(a[j].name@ != name);
            }
        }
        if section_at(b, name, i) {
            assert(i != a.len());
            assert forall|j: int| 0 <= j < i implies (#[trigger] a[j]).name@ != name by {
                assert(b[j].name@ != name);
            }
        }
    }
    if exists|i: int| section_at(a, name, i) {
        let i = choose|i: int| section_at(a, name, i);
        assert(section_at(b, name, i));
        let k = choose|k: int| section_at(b, name, k);
        lemma_section_at_unique(b, name, i, k);
    } else {
        assert forall|i: int| !section_at(b, name, i) by {
            assert(section_at(a, name, i) == section_at(b, name, i));
        }
    }
}

/// Puts `entries` under the section `name`, in place of what stood there.
/// The sections of other names keep their entries.
pub fn put_section(settings: &mut Vec<Section>, name: String, entries: Vec<Entry>)
    ensures
        section_entries(final(settings)@, name@) == Some(entries@),
        forall|other: Seq<char>|
            other != name@ ==> section_entries(final(settings)@, other) == section_entries(
                old(settings)@,
                other,
            ),
        are_settings(old(settings)@) && distinct_keys(entries@) ==> are_settings(final(settings)@),
{
    let ghost before = settings@;
    let ghost title = name@;
    let ghost put = entries@;
    match find_section(settings, name.as_str()) {
        Some(i) => {
            settings.set(i, Section { name, entries });
            proof {
                if are_settings(before) && distinct_keys(put) {
                    assert forall|j: int| 0 <= j < settings@.len() implies (
                    #[trigger] settings@[j]).name@ == before[j].name@ by {}
                    assert forall|j: int| 0 <= j < settings@.len() implies distinct_keys(
                        (#[trigger] settings@[j]).entries@,
                    ) by {
                        if j != i {
                            assert(settings@[j] == before[j]);
                        }
                    }
                }
                assert(section_at(settings@, title, i as int)) by {
                    assert forall|j: int| 0 <= j < i implies (#[trigger] settings@[j]).name@
                        != title by {
                        assert(before[j].name@ != title);
                    }
                }
                let k = choose|k: int| section_at(settings@, title, k);
                lemma_section_at_unique(settings@, title, k, i as int);
                assert forall|other: Seq<char>| other != title implies section_entries(
                    settings@,
                    other,
                ) == section_entries(before, other) by {
                    lemma_same_names_same_section(before, settings@, other, i as int);
                }
            }
        },
        None => {
            settings.push(Section { name, entries });
            proof {
                let n = before.len() as int;
                if are_settings(before) && distinct_keys(put) {
                    assert forall|a: int, b: int| 0 <= a < b < settings@.len() implies (
                    #[trigger] settings@[a]).name@ != (#[trigger] settings@[b]).name@ by {
                        if b < n {
                            assert(before[a].name@ != before[b].name@);
                        } else {
                            assert(before[a].name@ != title);
                        }
                    }
                    assert forall|j: int| 0 <= j < settings@.len() implies distinct_keys(
                        (#[trigger] settings@[j]).entries@,
                    ) by {
                        if j < n {
                            assert(settings@[j] == before[j]);
                        }
                    }
                }
                assert(section_at(settings@, title, n)) by {
                    assert forall|j: int| 0 <= j < n implies (#[trigger] settings@[j]).name@
                        != title by {
                        assert(before[j].name@ != title);
                    }
                }
                let k = choose|k: int| section_at(settings@, title, k);
                lemma_section_at_unique(settings@, title, k, n);
                assert forall|other: Seq<char>| other != title implies section_entries(
                    settings@,
                    other,
                ) == section_entries(before, other) by {
                    lemma_pushed_section_keeps_others(before, settings@, other);
                }
            }
        },
    }
}

/// Takes the entries of the section `name` out of the settings, leaving the
/// section empty, and gives none where there is no such section. The
/// sections of other names keep their entries.
pub fn take_entries(settings: &mut Vec<Section>, name: &str) -> (entries: Vec<Entry>)
    ensures
        match section_entries(old(settings)@, name@) {
            Some(found) => entries@ == found,
            None => entries@.len() == 0,
        },
        forall|other: Seq<char>|
            other != name@ ==> section_entries(final(settings)@, other) == section_entries(
                old(settings)@,
                other,
            ),
        are_settings(old(settings)@) ==> are_settings(final(settings)@) && distinct_keys(entries@),
{
    let ghost before = settings@;
    match find_section(settings, name) {
        Some(i) => {
            let section = settings.remove(i);
            settings.insert(i, Section { name: section.name, entries: Vec::new() });
            proof {
                if are_settings(before) {
                    assert(section == before[i as int]);
                    assert forall|j: int| 0 <= j < settings@.len() implies (
                    #[trigger] settings@[j]).name@ == before[j].name@ by {}
                    assert forall|j: int| 0 <= j < settings@.len() implies distinct_keys(
                        (#[trigger] settings@[j]).entries@,
                    ) by {
                        if j != i {
                            assert(settings@[j] == before[j]);
                        }
                    }
                }
                assert forall|other: Seq<char>| other != name@ implies section_entries(
                    settings@,
                    other,
                ) == section_entries(before, other) by {
                    lemma_same_names_same_section(before, settings@, other, i as int);
                }
            }
            section.entries
        },
        None => Vec::new(),
    }
}

} // verus!
