//! An in-memory credential cache: a secret for each pair of a service and a
//! user name. It lives as long as its owner keeps it; nothing is persisted,
//! and nothing is encrypted.

use vstd::prelude::*;

verus! {

/// The key of an entry: the service and the user name, as character
/// sequences.
pub type CredentialKey = (Seq<char>, Seq<char>);

/// One stored credential.
struct Credential {
    service: String,
    username: String,
    secret: String,
}

spec fn key_of(entry: Credential) -> CredentialKey {
    (entry.service@, entry.username@)
}

spec fn holds_key(entries: Seq<Credential>, key: CredentialKey) -> bool {
    exists|i: int| 0 <= i < entries.len() && key_of(#[trigger] entries[i]) == key
}

spec fn distinct_keys(entries: Seq<Credential>) -> bool {
    forall|i: int, j: int|
        0 <= i < j < entries.len() ==> key_of(#[trigger] entries[i]) != key_of(
            #[trigger] entries[j],
        )
}

spec fn position_of(entries: Seq<Credential>, key: CredentialKey) -> int {
    choose|i: int| 0 <= i < entries.len() && key_of(#[trigger] entries[i]) == key
}

spec fn as_map(entries: Seq<Credential>) -> Map<CredentialKey, Seq<char>> {
    Map::new(
        |key: CredentialKey| holds_key(entries, key),
        |key: CredentialKey| entries[position_of(entries, key)].secret@,
    )
}

/// The position of a key that is held is the position of an entry with that
/// key.
proof fn lemma_position(entries: Seq<Credential>, key: CredentialKey)
    requires
        holds_key(entries, key),
    ensures
        0 <= position_of(entries, key) < entries.len(),
        key_of(entries[position_of(entries, key)]) == key,
{
}

/// Among distinct keys, the entry at `i` is the one that the map shows for
/// its key.
proof fn lemma_entry_in_map(entries: Seq<Credential>, i: int)
    requires
        distinct_keys(entries),
        0 <= i < entries.len(),
    ensures
        holds_key(entries, key_of(entries[i])),
        position_of(entries, key_of(entries[i])) == i,
        as_map(entries).contains_key(key_of(entries[i])),
        as_map(entries)[key_of(entries[i])] == entries[i].secret@,
{
    let key = key_of(entries[i]);
    assert(holds_key(entries, key));
    lemma_position(entries, key);
}

/// Two lists of entries with distinct keys show the same map where each key
/// of one is held by the other with the same secret.
proof fn lemma_same_map(
    after: Seq<Credential>,
    expected: Map<CredentialKey, Seq<char>>,
)
    requires
        distinct_keys(after),
        forall|i: int|
            0 <= i < after.len() ==> expected.contains_key(key_of(#[trigger] after[i]))
                && expected[key_of(after[i])] == after[i].secret@,
        forall|key: CredentialKey| #[trigger] expected.contains_key(key) ==> holds_key(after, key),
    ensures
        as_map(after) == expected,
{
    assert forall|key: CredentialKey| #[trigger] as_map(after).contains_key(key) implies (
    expected.contains_key(key) && as_map(after)[key] == expected[key]) by {
        lemma_position(after, key);
        lemma_entry_in_map(after, position_of(after, key));
    }
    assert(as_map(after) =~= expected);
}

/// Appending an entry under a new key inserts it into the map.
proof fn lemma_push(entries: Seq<Credential>, entry: Credential)
    requires
        distinct_keys(entries),
        !holds_key(entries, key_of(entry)),
    ensures
        distinct_keys(entries.push(entry)),
        as_map(entries.push(entry)) == as_map(entries).insert(key_of(entry), entry.secret@),
{
    let after = entries.push(entry);
    let last = entries.len() as int;
    assert(after[last] == entry);
    assert forall|i: int, j: int| 0 <= i < j < after.len() implies key_of(#[trigger] after[i])
        != key_of(#[trigger] after[j]) by {
        assert(after[i] == entries[i]);
        if j < last {
            assert(after[j] == entries[j]);
        }
    }
    let expected = as_map(entries).insert(key_of(entry), entry.secret@);
    assert forall|i: int| 0 <= i < after.len() implies expected.contains_key(
        key_of(#[trigger] after[i]),
    ) && expected[key_of(after[i])] == after[i].secret@ by {
        if i < last {
            assert(after[i] == entries[i]);
            lemma_entry_in_map(entries, i);
        }
    }
    assert forall|key: CredentialKey| #[trigger] expected.contains_key(key) implies holds_key(
        after,
        key,
    ) by {
        if key == key_of(entry) {
            assert(key_of(after[last]) == key);
        } else {
            lemma_position(entries, key);
            let i = position_of(entries, key);
            assert(after[i] == entries[i]);
        }
    }
    lemma_same_map(after, expected);
}

/// Replacing the entry at `i` by one with the same key replaces its secret
/// in the map.
proof fn lemma_update(entries: Seq<Credential>, i: int, entry: Credential)
    requires
        distinct_keys(entries),
        0 <= i < entries.len(),
        key_of(entries[i]) == key_of(entry),
    ensures
        distinct_keys(entries.update(i, entry)),
        as_map(entries.update(i, entry)) == as_map(entries).insert(key_of(entry), entry.secret@),
{
    let after = entries.update(i, entry);
    assert(after[i] == entry);
    assert forall|a: int| 0 <= a < after.len() implies key_of(#[trigger] after[a]) == key_of(
        entries[a],
    ) by {}
    assert forall|a: int, b: int| 0 <= a < b < after.len() implies key_of(#[trigger] after[a])
        != key_of(#[trigger] after[b]) by {
        assert(key_of(after[a]) == key_of(entries[a]));
        assert(key_of(after[b]) == key_of(entries[b]));
    }
    let expected = as_map(entries).insert(key_of(entry), entry.secret@);
    assert forall|a: int| 0 <= a < after.len() implies expected.contains_key(
        key_of(#[trigger] after[a]),
    ) && expected[key_of(after[a])] == after[a].secret@ by {
        lemma_entry_in_map(entries, a);
        if a != i {
            assert(after[a] == entries[a]);
            assert(key_of(entries[a]) != key_of(entries[i]));
        }
    }
    assert forall|key: CredentialKey| #[trigger] expected.contains_key(key) implies holds_key(
        after,
        key,
    ) by {
        if key == key_of(entry) {
            assert(key_of(after[i]) == key);
        } else {
            lemma_position(entries, key);
            let a = position_of(entries, key);
            assert(key_of(after[a]) == key_of(entries[a]));
        }
    }
    lemma_same_map(after, expected);
}

/// Removing the entry at `i` removes its key from the map.
proof fn lemma_remove(entries: Seq<Credential>, i: int)
    requires
        distinct_keys(entries),
        0 <= i < entries.len(),
    ensures
        distinct_keys(entries.remove(i)),
        as_map(entries.remove(i)) == as_map(entries).remove(key_of(entries[i])),
{
    let after = entries.remove(i);
    let gone = key_of(entries[i]);
    let source = |a: int| if a < i { a } else { a + 1 };
    assert forall|a: int| 0 <= a < after.len() implies #[trigger] after[a] == entries[source(a)] by {}
    assert forall|a: int, b: int| 0 <= a < b < after.len() implies key_of(#[trigger] after[a])
        != key_of(#[trigger] after[b]) by {
        assert(after[a] == entries[source(a)] && after[b] == entries[source(b)]);
    }
    let expected = as_map(entries).remove(gone);
    assert forall|a: int| 0 <= a < after.len() implies expected.contains_key(
        key_of(#[trigger] after[a]),
    ) && expected[key_of(after[a])] == after[a].secret@ by {
        assert(after[a] == entries[source(a)]);
        lemma_entry_in_map(entries, source(a));
        assert(key_of(entries[source(a)]) != gone) by {
            if source(a) < i {
                assert(key_of(entries[source(a)]) != key_of(entries[i]));
            } else {
                assert(key_of(entries[i]) != key_of(entries[source(a)]));
            }
        }
    }
    assert forall|key: CredentialKey| #[trigger] expected.contains_key(key) implies holds_key(
        after,
        key,
    ) by {
        lemma_position(entries, key);
        let a0 = position_of(entries, key);
        let a = if a0 < i { a0 } else { a0 - 1 };
        assert(after[a] == entries[source(a)]);
        assert(source(a) == a0);
    }
    lemma_same_map(after, expected);
}

/// The views of a list of names.
pub open spec fn names(list: Seq<String>) -> Seq<Seq<char>> {
    list.map_values(|name: String| name@)
}

/// Whether `name` is among the names of `list`.
fn contains_name(list: &Vec<String>, name: &String) -> (found: bool)
    ensures
        found == names(list@).contains(name@),
{
    let mut k: usize = 0;
    while k < list.len()
        invariant
            k <= list@.len(),
            forall|j: int| 0 <= j < k ==> #[trigger] names(list@)[j] != name@,
        decreases list@.len() - k,
    {
        if list[k] == *name {
            assert(names(list@)[k as int] == name@);
            return true;
        }
        k += 1;
    }
    false
}

/// A cache of credentials, keyed by service and user name.
pub struct CredentialCache {
    entries: Vec<Credential>,
}

impl CredentialCache {
    #[verifier::type_invariant]
    spec fn no_key_twice(self) -> bool {
        distinct_keys(self.entries@)
    }

    /// The secret stored for each pair of a service and a user name.
    pub closed spec fn view(&self) -> Map<CredentialKey, Seq<char>> {
        as_map(self.entries@)
    }

    /// The services that have at least one entry.
    pub open spec fn services(&self) -> Set<Seq<char>> {
        Set::new(|service: Seq<char>| exists|username: Seq<char>| #[trigger]
            self@.contains_key((service, username)))
    }

    /// An empty cache.
    pub fn new() -> (cache: CredentialCache)
        ensures
            cache@ == Map::<CredentialKey, Seq<char>>::empty(),
    {
        let cache = CredentialCache { entries: Vec::new() };
        assert(cache@ =~= Map::<CredentialKey, Seq<char>>::empty());
        cache
    }

    /// The position of the entry for a key, if there is one.
    fn find(&self, service: &String, username: &String) -> (found: Option<usize>)
        ensures
            match found {
                Some(i) => i < self.entries@.len() && key_of(self.entries@[i as int]) == (
                    service@,
                    username@,
                ),
                None => !holds_key(self.entries@, (service@, username@)),
            },
    {
        let mut i: usize = 0;
        while i < self.entries.len()
            invariant
                i <= self.entries@.len(),
                forall|j: int|
                    0 <= j < i ==> key_of(#[trigger] self.entries@[j]) != (service@, username@),
            decreases self.entries@.len() - i,
        {
            let entry = &self.entries[i];
            if entry.service == *service && entry.username == *username {
                return Some(i);
            }
            i += 1;
        }
        None
    }

    /// The secret stored for `service` and `username`, or `None` where there
    /// is none.
    pub fn get_password(&self, service: &str, username: &str) -> (secret: Option<String>)
        ensures
            match secret {
                Some(s) => self@.contains_key((service@, username@)) && s@ == self@[(
                    service@,
                    username@,
                )],
                None => !self@.contains_key((service@, username@)),
            },
    {
        proof {
            use_type_invariant(self);
        }
        let service_key = service.to_owned();
        let username_key = username.to_owned();
        match self.find(&service_key, &username_key) {
            Some(i) => {
                proof {
                    lemma_entry_in_map(self.entries@, i as int);
                }
                Some(self.entries[i].secret.clone())
            },
            None => None,
        }
    }

    /// Stores `password` for `service` and `username`, in place of any secret
    /// stored for them before. Every other entry stays as it is.
    pub fn set_password(&mut self, service: &str, username: &str, password: &str)
        ensures
            final(self)@ == old(self)@.insert((service@, username@), password@),
    {
        proof {
            use_type_invariant(&*self);
        }
        let entry = Credential {
            service: service.to_owned(),
            username: username.to_owned(),
            secret: password.to_owned(),
        };
        let found = self.find(&entry.service, &entry.username);
        let mut entries: Vec<Credential> = Vec::new();
        core::mem::swap(&mut self.entries, &mut entries);
        match found {
            Some(i) => {
                proof {
                    lemma_update(entries@, i as int, entry);
                }
                entries.set(i, entry);
            },
            None => {
                proof {
                    lemma_push(entries@, entry);
                }
                entries.push(entry);
            },
        }
        core::mem::swap(&mut self.entries, &mut entries);
    }

    /// Removes the entry for `service` and `username`, and says whether there
    /// was one. Every other entry stays as it is.
    pub fn delete_password(&mut self, service: &str, username: &str) -> (removed: bool)
        ensures
            removed == old(self)@.contains_key((service@, username@)),
            final(self)@ == old(self)@.remove((service@, username@)),
    {
        proof {
            use_type_invariant(&*self);
        }
        let service_key = service.to_owned();
        let username_key = username.to_owned();
        match self.find(&service_key, &username_key) {
            Some(i) => {
                proof {
                    lemma_entry_in_map(self.entries@, i as int);
                    lemma_remove(self.entries@, i as int);
                }
                let mut entries: Vec<Credential> = Vec::new();
                core::mem::swap(&mut self.entries, &mut entries);
                entries.remove(i);
                core::mem::swap(&mut self.entries, &mut entries);
                true
            },
            None => {
                assert(self@.remove((service@, username@)) =~= self@);
                false
            },
        }
    }

    /// The services that have at least one entry, each of them once, in no
    /// particular order.
    pub fn list_services(&self) -> (services: Vec<String>)
        ensures
            names(services@).no_duplicates(),
            names(services@).to_set() == self.services(),
    {
        let mut services: Vec<String> = Vec::new();
        let mut i: usize = 0;
        while i < self.entries.len()
            invariant
                i <= self.entries@.len(),
                names(services@).no_duplicates(),
                forall|k: int|
                    0 <= k < services@.len() ==> exists|j: int|
                        0 <= j < i && (#[trigger] self.entries@[j]).service@ == #[trigger] names(
                            services@,
                        )[k],
                forall|j: int|
                    0 <= j < i ==> names(services@).contains(
                        (#[trigger] self.entries@[j]).service@,
                    ),
            decreases self.entries@.len() - i,
        {
            let name = &self.entries[i].service;
            if !contains_name(&services, name) {
                let ghost before = names(services@);
                services.push(name.clone());
                assert(names(services@) =~= before.push(name@));
                assert forall|j: int| 0 <= j < i implies names(services@).contains(
                    (#[trigger] self.entries@[j]).service@,
                ) by {
                    let k = choose|k: int|
                        0 <= k < before.len() && before[k] == self.entries@[j].service@;
                    assert(names(services@)[k] == self.entries@[j].service@);
                }
                assert(names(services@)[before.len() as int] == name@);
            }
            i += 1;
        }
        proof {
            let listed = names(services@);
            assert forall|service: Seq<char>| listed.to_set().contains(service)
                == #[trigger] self.services().contains(service) by {
                if listed.contains(service) {
                    let k = choose|k: int| 0 <= k < listed.len() && listed[k] == service;
                    let j = choose|j: int|
                        0 <= j < i && (#[trigger] self.entries@[j]).service@ == listed[k];
                    assert(holds_key(self.entries@, key_of(self.entries@[j])));
                    assert(self@.contains_key((service, self.entries@[j].username@)));
                }
                if self.services().contains(service) {
                    let username = choose|username: Seq<char>| #[trigger]
                        self@.contains_key((service, username));
                    lemma_position(self.entries@, (service, username));
                    let j = position_of(self.entries@, (service, username));
                    assert(listed.contains(self.entries@[j].service@));
                }
            }
            assert(listed.to_set() =~= self.services());
        }
        services
    }
}

} // verus!
