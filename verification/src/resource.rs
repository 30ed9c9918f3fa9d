//! Resource descriptors and the state table that maps each descriptor to
//! the state of the resource it names.

use vstd::prelude::*;
use vstd::string::*;

verus! {

/// Whether `c` is a hexadecimal digit, of either case.
pub open spec fn is_hex_digit(c: char) -> bool {
    ('0' <= c && c <= '9') || ('a' <= c && c <= 'f') || ('A' <= c && c <= 'F')
}

/// Whether `s` is a UUID in hyphenated form: 36 characters, hyphens at
/// positions 8, 13, 18 and 23, and hexadecimal digits elsewhere.
pub open spec fn hyphenated_uuid(s: Seq<char>) -> bool {
    &&& s.len() == 36
    &&& forall|i: int|
        0 <= i < 36 ==> if i == 8 || i == 13 || i == 18 || i == 23 {
            #[trigger] s[i] == '-'
        } else {
            is_hex_digit(s[i])
        }
}

/// `c` with an ASCII capital letter turned into its lowercase letter.
pub open spec fn ascii_lower_char(c: char) -> char {
    if 'A' <= c && c <= 'Z' {
        ((c as u32) + 32) as char
    } else {
        c
    }
}

/// Whether `uuid::Uuid::parse_str` accepts `s`: 32 hexadecimal digits;
/// the hyphenated form; the hyphenated form in braces; or the hyphenated
/// form after the prefix `urn:uuid:`, in any letter case.
pub open spec fn uuid_accepts(s: Seq<char>) -> bool {
    ||| s.len() == 32 && (forall|i: int| 0 <= i < 32 ==> is_hex_digit(#[trigger] s[i]))
    ||| hyphenated_uuid(s)
    ||| s.len() == 38 && s[0] == '{' && s[37] == '}' && hyphenated_uuid(s.subrange(1, 37))
    ||| s.len() == 45 && s.take(9).map_values(|c: char| ascii_lower_char(c)) == seq![
        'u',
        'r',
        'n',
        ':',
        'u',
        'u',
        'i',
        'd',
        ':',
    ] && hyphenated_uuid(s.skip(9))
}

/// Whether `s` parses as a UUID (`uuid::Uuid::parse_str`), whose accepted
/// forms are those its parser reads by length: `uuid_accepts`.
#[verifier::external_body]
pub(crate) fn parse_uuid(s: &str) -> (r: bool)
    ensures
        r == uuid_accepts(s@),
{
    uuid::Uuid::parse_str(s).is_ok()
}

/// A fresh random resource descriptor (`uuid::Uuid::new_v4`, written as its
/// hyphenated text, which the crate writes in lowercase). Which descriptor
/// comes out is left open.
#[verifier::external_body]
pub(crate) fn new_resource_descriptor() -> (r: String)
    ensures
        hyphenated_uuid(r@),
        uuid_accepts(r@),
        r@.len() == 36,
{
    uuid::Uuid::new_v4().to_string()
}

/// The value of the last entry whose key is `key`, as collecting the
/// entries into a map keeps it.
pub open spec fn lookup_last<V>(entries: Seq<(String, V)>, key: Seq<char>) -> Option<V>
    decreases entries.len(),
{
    if entries.len() == 0 {
        None
    } else if entries.last().0@ == key {
        Some(entries.last().1)
    } else {
        lookup_last(entries.drop_last(), key)
    }
}

/// The position of the last entry whose key is `key`.
pub fn find_last<V>(entries: &Vec<(String, V)>, key: &str) -> (r: Option<usize>)
    ensures
        match r {
            Some(i) => i < entries.len() && lookup_last(entries@, key@) == Some(entries@[i as int].1),
            None => lookup_last(entries@, key@) is None,
        },
{
    let k = String::from_str(key);
    let mut i: usize = entries.len();
    assert(entries@.take(i as int) =~= entries@);
    while i > 0
        invariant
            i <= entries.len(),
            k@ == key@,
            lookup_last(entries@, key@) == lookup_last(entries@.take(i as int), key@),
        decreases i,
    {
        assert(entries@.take(i as int).drop_last() =~= entries@.take(i - 1));
        if entries[i - 1].0 == k {
            return Some(i - 1);
        }
        i = i - 1;
    }
    None
}

/// The error of a lookup of a key that the table does not hold.
#[derive(Debug)]
pub struct MissingKey {
    pub message: String,
}

/// The message of a lookup of `key` that failed.
pub open spec fn missing_key_message(key: Seq<char>) -> Seq<char> {
    "failed because key '"@ + key + "' was not found"@
}

/// The value a list of entries holds for `key`, when the keys are distinct.
pub open spec fn entries_view<V>(entries: Seq<(String, V)>) -> Map<Seq<char>, V> {
    Map::new(
        |k: Seq<char>| exists|i: int| 0 <= i < entries.len() && (#[trigger] entries[i]).0@ == k,
        |k: Seq<char>| entries[choose|i: int| 0 <= i < entries.len() && (#[trigger] entries[i]).0@ == k].1,
    )
}

/// Whether no two entries share a key.
pub open spec fn distinct_keys<V>(entries: Seq<(String, V)>) -> bool {
    forall|i: int, j: int|
        0 <= i < entries.len() && 0 <= j < entries.len() && i != j ==> (#[trigger] entries[i]).0@
            != (#[trigger] entries[j]).0@
}

/// A table indexed by each resource's unique descriptor.
pub struct StateTable<V> {
    entries: Vec<(String, V)>,
}

impl<V> StateTable<V> {
    /// The table as a map from descriptors to states.
    pub closed spec fn view(&self) -> Map<Seq<char>, V> {
        entries_view(self.entries@)
    }

    /// Whether the table is well formed: no descriptor occurs twice.
    pub closed spec fn wf(&self) -> bool {
        distinct_keys(self.entries@)
    }

    /// An empty table.
    pub fn new() -> (r: StateTable<V>)
        ensures
            r.wf(),
            r.view() == Map::<Seq<char>, V>::empty(),
    {
        let r = StateTable { entries: Vec::new() };
        assert(r.view() =~= Map::<Seq<char>, V>::empty());
        r
    }

    fn position(&self, key: &str) -> (r: Option<usize>)
        requires
            self.wf(),
        ensures
            match r {
                Some(i) => i < self.entries.len() && self.entries@[i as int].0@ == key@
                    && self.view().contains_key(key@) && self.view()[key@]
                    == self.entries@[i as int].1,
                None => !self.view().contains_key(key@),
            },
    {
        let k = String::from_str(key);
        let mut i: usize = 0;
        while i < self.entries.len()
            invariant
                i <= self.entries.len(),
                k@ == key@,
                self.wf(),
                forall|j: int| 0 <= j < i ==> (#[trigger] self.entries@[j]).0@ != key@,
            decreases self.entries.len() - i,
        {
            if self.entries[i].0 == k {
                proof {
                    let c = choose|j: int|
                        0 <= j < self.entries@.len() && (#[trigger] self.entries@[j]).0@ == key@;
                    assert(self.entries@[i as int].0@ == key@);
                    assert(c == i);
                }
                return Some(i);
            }
            i = i + 1;
        }
        None
    }

    /// Whether the table holds `key`.
    pub fn contains(&self, key: &str) -> (r: bool)
        requires
            self.wf(),
        ensures
            r == self.view().contains_key(key@),
    {
        self.position(key).is_some()
    }

    /// Sets the state of `key`, replacing the state it had.
    pub fn set(&mut self, key: String, value: V)
        requires
            old(self).wf(),
        ensures
            final(self).wf(),
            final(self).view() == old(self).view().insert(key@, value),
    {
        let ghost old_view = self.view();
        let ghost kv = key@;
        match self.position(key.as_str()) {
            Some(i) => {
                let ghost old_entries = self.entries@;
                self.entries.set(i, (key, value));
                proof {
                    assert(self.entries@ == old_entries.update(i as int, (self.entries@[i as int].0, value)));
                    assert forall|k: Seq<char>| #[trigger] self.view().contains_key(k) <==> old_view.insert(kv, value).contains_key(k) by {
                        if old_view.contains_key(k) && k != kv {
                            let j = choose|j: int| 0 <= j < old_entries.len() && (#[trigger] old_entries[j]).0@ == k;
                            assert(self.entries@[j].0@ == k);
                        }
                        if self.view().contains_key(k) && k != kv {
                            let j = choose|j: int| 0 <= j < self.entries@.len() && (#[trigger] self.entries@[j]).0@ == k;
                            assert(old_entries[j].0@ == k);
                        }
                    }
                    assert forall|k: Seq<char>| #[trigger] self.view().contains_key(k) implies self.view()[k] == old_view.insert(kv, value)[k] by {
                        let j = choose|j: int| 0 <= j < self.entries@.len() && (#[trigger] self.entries@[j]).0@ == k;
                        if k != kv {
                            assert(old_entries[j].0@ == k);
                            let j2 = choose|j2: int| 0 <= j2 < old_entries.len() && (#[trigger] old_entries[j2]).0@ == k;
                            assert(j == j2);
                        } else {
                            assert(j == i);
                        }
                    }
                    assert(self.view() =~= old_view.insert(kv, value));
                }
            },
            None => {
                let ghost old_entries = self.entries@;
                self.entries.push((key, value));
                proof {
                    let n = old_entries.len() as int;
                    assert forall|k: Seq<char>| #[trigger] self.view().contains_key(k) <==> old_view.insert(kv, value).contains_key(k) by {
                        if old_view.contains_key(k) && k != kv {
                            let j = choose|j: int| 0 <= j < old_entries.len() && (#[trigger] old_entries[j]).0@ == k;
                            assert(self.entries@[j].0@ == k);
                        }
                        if k == kv {
                            assert(self.entries@[n].0@ == k);
                        }
                        if self.view().contains_key(k) && k != kv {
                            let j = choose|j: int| 0 <= j < self.entries@.len() && (#[trigger] self.entries@[j]).0@ == k;
                            assert(old_entries[j].0@ == k);
                        }
                    }
                    assert forall|k: Seq<char>| #[trigger] self.view().contains_key(k) implies self.view()[k] == old_view.insert(kv, value)[k] by {
                        let j = choose|j: int| 0 <= j < self.entries@.len() && (#[trigger] self.entries@[j]).0@ == k;
                        if k != kv {
                            assert(old_entries[j].0@ == k);
                            let j2 = choose|j2: int| 0 <= j2 < old_entries.len() && (#[trigger] old_entries[j2]).0@ == k;
                            assert(j == j2);
                        } else {
                            assert(j == n);
                        }
                    }
                    assert(self.view() =~= old_view.insert(kv, value));
                }
            },
        }
    }

    /// The state of `key`, or an error naming the key when the table does
    /// not hold it.
    pub fn get(&self, key: &str) -> (r: Result<&V, MissingKey>)
        requires
            self.wf(),
        ensures
            match r {
                Ok(v) => self.view().contains_key(key@) && *v == self.view()[key@],
                Err(e) => !self.view().contains_key(key@) && e.message@ == missing_key_message(key@),
            },
    {
        match self.position(key) {
            Some(i) => Ok(&self.entries[i].1),
            None => Err(MissingKey {
                message: String::from_str("failed because key '").concat(key).concat("' was not found"),
            }),
        }
    }
}

proof fn lemma_update_value<V>(entries: Seq<(String, V)>, i: int)
    requires
        distinct_keys(entries),
        0 <= i < entries.len(),
    ensures
        forall|value: V|
            #![trigger entries.update(i, (entries[i].0, value))]
            distinct_keys(entries.update(i, (entries[i].0, value))) && entries_view(
                entries.update(i, (entries[i].0, value)),
            ) == entries_view(entries).insert(entries[i].0@, value),
{
    assert forall|value: V|
        #![trigger entries.update(i, (entries[i].0, value))]
        distinct_keys(entries.update(i, (entries[i].0, value))) && entries_view(
            entries.update(i, (entries[i].0, value)),
        ) == entries_view(entries).insert(entries[i].0@, value) by {
        let upd = entries.update(i, (entries[i].0, value));
        let kv = entries[i].0@;
        let old_view = entries_view(entries);
        assert forall|a: int, b: int|
            0 <= a < upd.len() && 0 <= b < upd.len() && a != b implies (#[trigger] upd[a]).0@
            != (#[trigger] upd[b]).0@ by {
            assert(upd[a].0 == entries[a].0);
            assert(upd[b].0 == entries[b].0);
        }
        assert forall|k: Seq<char>| #[trigger] entries_view(upd).contains_key(k) <==> old_view.insert(kv, value).contains_key(k) by {
            if old_view.contains_key(k) && k != kv {
                let j = choose|j: int| 0 <= j < entries.len() && (#[trigger] entries[j]).0@ == k;
                assert(upd[j].0@ == k);
            }
            if k == kv {
                assert(upd[i].0@ == k);
            }
            if entries_view(upd).contains_key(k) && k != kv {
                let j = choose|j: int| 0 <= j < upd.len() && (#[trigger] upd[j]).0@ == k;
                assert(entries[j].0@ == k);
            }
        }
        assert forall|k: Seq<char>| #[trigger] entries_view(upd).contains_key(k) implies entries_view(upd)[k] == old_view.insert(kv, value)[k] by {
            let j = choose|j: int| 0 <= j < upd.len() && (#[trigger] upd[j]).0@ == k;
            if k != kv {
                assert(entries[j].0@ == k);
                let j2 = choose|j2: int| 0 <= j2 < entries.len() && (#[trigger] entries[j2]).0@ == k;
                assert(j == j2);
                assert(j != i);
            } else {
                assert(j == i);
            }
        }
        assert(entries_view(upd) =~= old_view.insert(kv, value));
    }
}

impl<V> StateTable<V> {
    /// The state of `key`, to update in place, or an error naming the key
    /// when the table does not hold it. Whatever is written through the
    /// reference becomes the state of `key`; the other keys keep theirs.
    pub fn get_mut(&mut self, key: &str) -> (r: Result<&mut V, MissingKey>)
        requires
            old(self).wf(),
        ensures
            final(self).wf(),
            match r {
                Ok(v) => old(self).view().contains_key(key@) && *v == old(self).view()[key@]
                    && final(self).view() == old(self).view().insert(key@, *final(v)),
                Err(e) => !old(self).view().contains_key(key@) && e.message@
                    == missing_key_message(key@) && final(self).view() == old(self).view(),
            },
    {
        match self.position(key) {
            Some(i) => {
                proof {
                    lemma_update_value(self.entries@, i as int);
                }
                let v = &mut self.entries[i].1;
                Ok(v)
            },
            None => Err(MissingKey {
                message: String::from_str("failed because key '").concat(key).concat("' was not found"),
            }),
        }
    }
}

/// A table that `set` turned from `before` into `after`, by setting `key` to
/// `value`, answers `get` of `key` with `value`, and `get` of every other
/// key as `before` did.
pub proof fn lemma_get_after_set<V>(
    before: StateTable<V>,
    after: StateTable<V>,
    key: Seq<char>,
    value: V,
    other: Seq<char>,
)
    requires
        after.view() == before.view().insert(key, value),
    ensures
        after.view().contains_key(key),
        after.view()[key] == value,
        other != key ==> (after.view().contains_key(other) == before.view().contains_key(other)),
        other != key && before.view().contains_key(other) ==> after.view()[other]
            == before.view()[other],
{
}

} // verus!
