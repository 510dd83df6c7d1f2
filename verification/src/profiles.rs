//! The profiles of a store, each under its own name, in the order of their names.
use crate::profile::{Settings, StoredProfile};
use vstd::prelude::*;

verus! {

// ---------------------------------------------------------------------------------------------
// The order of names
// ---------------------------------------------------------------------------------------------

/// `a` and `b` agree before position `i`, where `a` ends or has the smaller byte.
pub open spec fn less_at(a: Seq<u8>, b: Seq<u8>, i: int) -> bool {
    &&& 0 <= i <= a.len()
    &&& i < b.len()
    &&& forall|j: int| 0 <= j < i ==> a[j] == b[j]
    &&& i == a.len() || a[i] < b[i]
}

/// `a` stands before `b` in the order of names: that of their bytes, position by position.
pub open spec fn name_less(a: Seq<char>, b: Seq<char>) -> bool {
    exists|i: int|
        #[trigger] less_at(vstd::utf8::encode_utf8(a), vstd::utf8::encode_utf8(b), i)
}

/// The order of names is transitive.
pub proof fn law_name_order_transitive(a: Seq<char>, b: Seq<char>, c: Seq<char>)
    requires
        name_less(a, b),
        name_less(b, c),
    ensures
        name_less(a, c),
{
    let (x, y, z) = (
        vstd::utf8::encode_utf8(a),
        vstd::utf8::encode_utf8(b),
        vstd::utf8::encode_utf8(c),
    );
    let i = choose|i: int| less_at(x, y, i);
    let k = choose|k: int| less_at(y, z, k);
    let m = if i <= k {
        i
    } else {
        k
    };
    assert(less_at(x, z, m));
}

/// No name stands before itself.
pub proof fn law_name_order_irreflexive(a: Seq<char>)
    ensures
        !name_less(a, a),
{
}

/// Of two different names, one stands before the other.
pub proof fn law_name_order_total(a: Seq<char>, b: Seq<char>)
    ensures
        a == b || name_less(a, b) || name_less(b, a),
{
    let (x, y) = (vstd::utf8::encode_utf8(a), vstd::utf8::encode_utf8(b));
    lemma_bytes_total(x, y, 0);
    if x == y {
        vstd::utf8::encode_utf8_decode_utf8(a);
        vstd::utf8::encode_utf8_decode_utf8(b);
    }
}

/// Bytes that agree before position `i` are equal, or differ at some position in one direction.
proof fn lemma_bytes_total(x: Seq<u8>, y: Seq<u8>, i: int)
    requires
        0 <= i <= x.len(),
        i <= y.len(),
        forall|j: int| 0 <= j < i ==> x[j] == y[j],
    ensures
        x == y || (exists|k: int| less_at(x, y, k)) || (exists|k: int| less_at(y, x, k)),
    decreases x.len() - i,
{
    if i == x.len() && i == y.len() {
        assert(x =~= y);
    } else if i == x.len() || (i < y.len() && x[i] < y[i]) {
        assert(less_at(x, y, i));
    } else if i == y.len() || x[i] > y[i] {
        assert(less_at(y, x, i));
    } else {
        lemma_bytes_total(x, y, i + 1);
    }
}

/// How one name stands to another.
enum NameOrder {
    Before,
    Same,
    After,
}

/// Tells how the name `a` stands to the name `b`.
fn order_names(a: &str, b: &str) -> (order: NameOrder)
    ensures
        match order {
            NameOrder::Before => name_less(a@, b@),
            NameOrder::Same => a@ == b@,
            NameOrder::After => name_less(b@, a@),
        },
{
    let x = a.as_bytes();
    let y = b.as_bytes();
    let mut i: usize = 0;
    while i < x.len() && i < y.len()
        invariant
            x@ == vstd::utf8::encode_utf8(a@),
            y@ == vstd::utf8::encode_utf8(b@),
            i <= x@.len(),
            i <= y@.len(),
            forall|j: int| 0 <= j < i ==> x@[j] == y@[j],
        decreases x.len() - i,
    {
        if x[i] < y[i] {
            assert(less_at(x@, y@, i as int));
            return NameOrder::Before;
        }
        if x[i] > y[i] {
            assert(less_at(y@, x@, i as int));
            return NameOrder::After;
        }
        i = i + 1;
    }
    if i < y.len() {
        assert(less_at(x@, y@, i as int));
        NameOrder::Before
    } else if i < x.len() {
        assert(less_at(y@, x@, i as int));
        NameOrder::After
    } else {
        proof {
            assert(x@ =~= y@);
            vstd::utf8::encode_utf8_decode_utf8(a@);
            vstd::utf8::encode_utf8_decode_utf8(b@);
        }
        NameOrder::Same
    }
}

// ---------------------------------------------------------------------------------------------
// Profiles by name
// ---------------------------------------------------------------------------------------------

/// A profile and its name, as contracts speak of them.
#[verifier::ext_equal]
pub struct NamedSettings {
    pub name: Seq<char>,
    pub settings: Settings,
}

/// The names stand in their order; so no name occurs twice.
pub open spec fn in_name_order(entries: Seq<NamedSettings>) -> bool {
    forall|i: int, j: int|
        #![trigger entries[i], entries[j]]
        0 <= i < j < entries.len() ==> name_less(entries[i].name, entries[j].name)
}

/// A profile has the name `name`.
pub open spec fn has_name(entries: Seq<NamedSettings>, name: Seq<char>) -> bool {
    exists|i: int| 0 <= i < entries.len() && #[trigger] entries[i].name == name
}

/// The profile of the name `name`, if there is one.
pub open spec fn settings_of(entries: Seq<NamedSettings>, name: Seq<char>) -> Option<Settings> {
    if has_name(entries, name) {
        let i = choose|i: int| 0 <= i < entries.len() && #[trigger] entries[i].name == name;
        Some(entries[i].settings)
    } else {
        None
    }
}

/// `new` is `old` with the profile of one name replaced or added, in its place.
pub open spec fn placed(
    old: Seq<NamedSettings>,
    new: Seq<NamedSettings>,
    entry: NamedSettings,
) -> bool {
    ||| !has_name(old, entry.name) && exists|i: int|
        0 <= i <= old.len() && new == #[trigger] old.insert(i, entry)
    ||| exists|i: int|
        0 <= i < old.len() && old[i].name == entry.name && new == #[trigger] old.update(i, entry)
}

/// Names in order are different names: one position has a given name.
pub proof fn lemma_name_once(entries: Seq<NamedSettings>, i: int)
    requires
        in_name_order(entries),
        0 <= i < entries.len(),
    ensures
        settings_of(entries, entries[i].name) == Some(entries[i].settings),
{
    let name = entries[i].name;
    assert(has_name(entries, name));
    let k = choose|k: int| 0 <= k < entries.len() && #[trigger] entries[k].name == name;
    if k < i {
        law_name_order_irreflexive(name);
        assert(name_less(entries[k].name, entries[i].name));
    } else if i < k {
        law_name_order_irreflexive(name);
        assert(name_less(entries[i].name, entries[k].name));
    }
}

/// All other profiles stay as they are when one profile is placed and the names stand in order before
/// and after.
pub proof fn law_placing_keeps_others(
    old: Seq<NamedSettings>,
    new: Seq<NamedSettings>,
    entry: NamedSettings,
)
    requires
        in_name_order(old),
        in_name_order(new),
        placed(old, new, entry),
    ensures
        settings_of(new, entry.name) == Some(entry.settings),
        forall|name: Seq<char>|
            name != entry.name ==> #[trigger] settings_of(new, name) == settings_of(old, name),
{
    if !has_name(old, entry.name) {
        let i = choose|i: int| 0 <= i <= old.len() && new == #[trigger] old.insert(i, entry);
        assert(new[i] == entry);
        lemma_name_once(new, i);
        assert forall|name: Seq<char>| name != entry.name implies #[trigger] settings_of(new, name)
            == settings_of(old, name) by {
            if has_name(old, name) {
                let k = choose|k: int| 0 <= k < old.len() && #[trigger] old[k].name == name;
                lemma_name_once(old, k);
                if k < i {
                    assert(new[k] == old[k]);
                    lemma_name_once(new, k);
                } else {
                    assert(new[k + 1] == old[k]);
                    lemma_name_once(new, k + 1);
                }
            } else if has_name(new, name) {
                let k = choose|k: int| 0 <= k < new.len() && #[trigger] new[k].name == name;
                if k < i {
                    assert(old[k].name == name);
                } else if k > i {
                    assert(old[k - 1].name == name);
                }
            }
        }
    } else {
        let i = choose|i: int|
            0 <= i < old.len() && old[i].name == entry.name && new == #[trigger] old.update(
                i,
                entry,
            );
        assert(new[i] == entry);
        lemma_name_once(new, i);
        assert forall|name: Seq<char>| name != entry.name implies #[trigger] settings_of(new, name)
            == settings_of(old, name) by {
            if has_name(old, name) {
                let k = choose|k: int| 0 <= k < old.len() && #[trigger] old[k].name == name;
                lemma_name_once(old, k);
                assert(new[k] == old[k]);
                lemma_name_once(new, k);
            } else if has_name(new, name) {
                let k = choose|k: int| 0 <= k < new.len() && #[trigger] new[k].name == name;
                assert(old[k].name == name);
            }
        }
    }
}

/// Taking one profile away leaves the names in order and all other profiles as they are.
pub proof fn law_removing_keeps_others(old: Seq<NamedSettings>, i: int)
    requires
        in_name_order(old),
        0 <= i < old.len(),
    ensures
        in_name_order(old.remove(i)),
        settings_of(old.remove(i), old[i].name) is None,
        forall|name: Seq<char>|
            name != old[i].name ==> #[trigger] settings_of(old.remove(i), name) == settings_of(
                old,
                name,
            ),
{
    let new = old.remove(i);
    assert forall|j: int, k: int| #![trigger new[j], new[k]] 0 <= j < k < new.len() implies name_less(
        new[j].name,
        new[k].name,
    ) by {
        let before = if j < i {
            j
        } else {
            j + 1
        };
        let after = if k < i {
            k
        } else {
            k + 1
        };
        assert(name_less(old[before].name, old[after].name));
    }
    if has_name(new, old[i].name) {
        let k = choose|k: int| 0 <= k < new.len() && #[trigger] new[k].name == old[i].name;
        law_name_order_irreflexive(old[i].name);
        if k < i {
            assert(name_less(old[k].name, old[i].name));
        } else {
            assert(name_less(old[i].name, old[k + 1].name));
        }
    }
    assert forall|name: Seq<char>| name != old[i].name implies #[trigger] settings_of(new, name)
        == settings_of(old, name) by {
        if has_name(old, name) {
            let k = choose|k: int| 0 <= k < old.len() && #[trigger] old[k].name == name;
            lemma_name_once(old, k);
            if k < i {
                assert(new[k] == old[k]);
                lemma_name_once(new, k);
            } else {
                assert(new[k - 1] == old[k]);
                lemma_name_once(new, k - 1);
            }
        } else if has_name(new, name) {
            let k = choose|k: int| 0 <= k < new.len() && #[trigger] new[k].name == name;
            if k < i {
                assert(old[k].name == name);
            } else {
                assert(old[k + 1].name == name);
            }
        }
    }
}

/// Taking a profile away undoes placing it under a name that was not there.
pub proof fn law_removing_undoes_placing(
    old: Seq<NamedSettings>,
    new: Seq<NamedSettings>,
    entry: NamedSettings,
    i: int,
)
    requires
        !has_name(old, entry.name),
        placed(old, new, entry),
        in_name_order(new),
        0 <= i < new.len(),
        new[i].name == entry.name,
    ensures
        new.remove(i) == old,
{
    assert forall|k: int| 0 <= k < old.len() implies old[k].name != entry.name by {}
    let j = choose|j: int| 0 <= j <= old.len() && new == #[trigger] old.insert(j, entry);
    assert(new[j] == entry);
    law_name_order_irreflexive(entry.name);
    if i < j {
        assert(name_less(new[i].name, new[j].name));
    } else if j < i {
        assert(name_less(new[j].name, new[i].name));
    }
    assert(new.remove(i) =~= old);
}

/// A profile and its name.
#[derive(Debug)]
struct ProfileEntry {
    name: String,
    profile: StoredProfile,
}

/// Profiles by name, in the order of their names.
#[derive(Debug)]
pub struct Profiles {
    entries: Vec<ProfileEntry>,
}

impl View for Profiles {
    type V = Seq<NamedSettings>;

    closed spec fn view(&self) -> Seq<NamedSettings> {
        Seq::new(
            self.entries@.len(),
            |i: int|
                NamedSettings { name: self.entries@[i].name@, settings: self.entries@[i].profile@ },
        )
    }
}

impl Profiles {
    /// The names stand in their order.
    pub open spec fn wf(self) -> bool {
        in_name_order(self@)
    }

    /// No profiles.
    pub fn new() -> (profiles: Profiles)
        ensures
            profiles@ == Seq::<NamedSettings>::empty(),
            profiles.wf(),
    {
        let profiles = Profiles { entries: Vec::new() };
        assert(profiles@ =~= Seq::<NamedSettings>::empty());
        profiles
    }

    /// How many profiles there are.
    pub fn len(&self) -> (len: usize)
        ensures
            len == self@.len(),
    {
        self.entries.len()
    }

    /// The name at a position in the order of names.
    pub fn name_at(&self, i: usize) -> (name: &str)
        requires
            i < self@.len(),
        ensures
            name@ == self@[i as int].name,
    {
        self.entries[i].name.as_str()
    }

    /// The profile at a position in the order of names.
    pub fn profile_at(&self, i: usize) -> (profile: &StoredProfile)
        requires
            i < self@.len(),
        ensures
            profile@ == self@[i as int].settings,
    {
        &self.entries[i].profile
    }

    /// Replaces the credentials of the profile at a position.
    pub(crate) fn set_credentials_at(
        &mut self,
        i: usize,
        access_key_id: Option<String>,
        access_key_secret: Option<String>,
    )
        requires
            i < old(self)@.len(),
        ensures
            final(self)@ == old(self)@.update(
                i as int,
                NamedSettings {
                    name: old(self)@[i as int].name,
                    settings: old(self)@[i as int].settings.with_credentials(
                        crate::profile::optional_text(access_key_id),
                        crate::profile::optional_text(access_key_secret),
                    ),
                },
            ),
            old(self).wf() ==> final(self).wf(),
    {
        let entry = &self.entries[i];
        let mut profile = entry.profile.clone();
        profile.access_key_id = access_key_id;
        profile.access_key_secret = access_key_secret;
        let replaced = ProfileEntry { name: entry.name.clone(), profile };
        self.entries.set(i, replaced);
        assert(self@ =~= old(self)@.update(
            i as int,
            NamedSettings { name: replaced.name@, settings: replaced.profile@ },
        ));
        assert(old(self).wf() ==> self.wf()) by {
            if old(self).wf() {
                assert forall|j: int, k: int|
                    #![trigger self@[j], self@[k]]
                    0 <= j < k < self@.len() implies name_less(self@[j].name, self@[k].name) by {
                    assert(name_less(old(self)@[j].name, old(self)@[k].name));
                }
            }
        }
    }

    /// Where a name stands or would stand, and whether it is there.
    fn position(&self, name: &str) -> (place: (usize, bool))
        requires
            self.wf(),
        ensures
            place.0 <= self@.len(),
            forall|j: int| 0 <= j < place.0 ==> name_less(#[trigger] self@[j].name, name@),
            place.1 ==> place.0 < self@.len() && self@[place.0 as int].name == name@,
            !place.1 ==> !has_name(self@, name@) && forall|j: int|
                place.0 <= j < self@.len() ==> name_less(name@, #[trigger] self@[j].name),
    {
        let mut i: usize = 0;
        while i < self.entries.len()
            invariant
                self.wf(),
                i <= self@.len(),
                self@.len() == self.entries@.len(),
                forall|j: int| 0 <= j < i ==> name_less(#[trigger] self@[j].name, name@),
            decreases self.entries.len() - i,
        {
            match order_names(self.entries[i].name.as_str(), name) {
                NameOrder::Before => {
                    assert(name_less(self@[i as int].name, name@));
                },
                NameOrder::Same => {
                    assert(self@[i as int].name == name@);
                    return (i, true);
                },
                NameOrder::After => {
                    assert(name_less(name@, self@[i as int].name));
                    assert forall|j: int| i <= j < self@.len() implies name_less(
                        name@,
                        #[trigger] self@[j].name,
                    ) by {
                        if i < j {
                            law_name_order_transitive(name@, self@[i as int].name, self@[j].name);
                        }
                    }
                    proof {
                        law_name_order_irreflexive(name@);
                    }
                    return (i, false);
                },
            }
            i = i + 1;
        }
        proof {
            law_name_order_irreflexive(name@);
        }
        (i, false)
    }

    /// There is a profile of this name.
    pub fn contains(&self, name: &str) -> (found: bool)
        requires
            self.wf(),
        ensures
            found == has_name(self@, name@),
    {
        let (i, found) = self.position(name);
        assert(found ==> self@[i as int].name == name@);
        found
    }

    /// The profile of a name.
    pub fn get(&self, name: &str) -> (profile: Option<&StoredProfile>)
        requires
            self.wf(),
        ensures
            match profile {
                Some(profile) => settings_of(self@, name@) == Some(profile@),
                None => settings_of(self@, name@) is None,
            },
    {
        let (i, found) = self.position(name);
        if found {
            proof {
                lemma_name_once(self@, i as int);
            }
            Some(self.profile_at(i))
        } else {
            None
        }
    }

    /// All names, in their order.
    pub fn names(&self) -> (names: Vec<String>)
        ensures
            names@.len() == self@.len(),
            forall|i: int| 0 <= i < names@.len() ==> (#[trigger] names@[i])@ == self@[i].name,
    {
        let mut names: Vec<String> = Vec::new();
        let mut i: usize = 0;
        while i < self.entries.len()
            invariant
                i <= self@.len(),
                self@.len() == self.entries@.len(),
                names@.len() == i,
                forall|j: int| 0 <= j < i ==> (#[trigger] names@[j])@ == self@[j].name,
            decreases self.entries.len() - i,
        {
            names.push(self.entries[i].name.clone());
            i = i + 1;
        }
        names
    }

    /// Puts a profile under a name, in place of the one that was there.
    pub fn insert(&mut self, name: String, profile: StoredProfile)
        requires
            old(self).wf(),
        ensures
            final(self).wf(),
            placed(
                old(self)@,
                final(self)@,
                (NamedSettings { name: name@, settings: profile@ }),
            ),
            settings_of(final(self)@, name@) == Some(profile@),
            forall|other: Seq<char>|
                other != name@ ==> #[trigger] settings_of(final(self)@, other) == settings_of(
                    old(self)@,
                    other,
                ),
    {
        let ghost entry = NamedSettings { name: name@, settings: profile@ };
        let (i, found) = self.position(name.as_str());
        let new_entry = ProfileEntry { name, profile };
        if found {
            self.entries.set(i, new_entry);
            assert(self@ =~= old(self)@.update(i as int, entry));
            assert(has_name(old(self)@, entry.name)) by {
                assert(old(self)@[i as int].name == entry.name);
            }
        } else {
            self.entries.insert(i, new_entry);
            assert(self@ =~= old(self)@.insert(i as int, entry));
        }
        proof {
            let before = old(self)@;
            let after = self@;
            assert forall|j: int, k: int| #![trigger after[j], after[k]] 0 <= j < k
                < after.len() implies name_less(after[j].name, after[k].name) by {
                if found {
                    assert(name_less(before[j].name, before[k].name));
                } else if j != i && k != i {
                    let from = if j < i {
                        j
                    } else {
                        j - 1
                    };
                    let to = if k < i {
                        k
                    } else {
                        k - 1
                    };
                    assert(after[j] == before[from]);
                    assert(after[k] == before[to]);
                    assert(name_less(before[from].name, before[to].name));
                } else if j == i {
                    assert(after[k] == before[k - 1]);
                    assert(name_less(entry.name, before[k - 1].name));
                } else {
                    assert(after[j] == before[j]);
                    assert(name_less(before[j].name, entry.name));
                }
            }
            law_placing_keeps_others(before, after, entry);
        }
    }

    /// Takes the profile of a name away, and tells whether there was one.
    pub fn remove(&mut self, name: &str) -> (found: bool)
        requires
            old(self).wf(),
        ensures
            final(self).wf(),
            found == has_name(old(self)@, name@),
            found ==> exists|i: int|
                0 <= i < old(self)@.len() && old(self)@[i].name == name@ && final(self)@
                    == #[trigger] old(self)@.remove(i),
            !found ==> final(self)@ == old(self)@,
            settings_of(final(self)@, name@) is None,
            forall|other: Seq<char>|
                other != name@ ==> #[trigger] settings_of(final(self)@, other) == settings_of(
                    old(self)@,
                    other,
                ),
    {
        let (i, found) = self.position(name);
        if found {
            let _ = self.entries.remove(i);
            proof {
                assert(self@ =~= old(self)@.remove(i as int));
                assert(old(self)@[i as int].name == name@);
                law_removing_keeps_others(old(self)@, i as int);
            }
        }
        found
    }
}

impl Clone for Profiles {
    fn clone(&self) -> (copy: Self)
        ensures
            copy@ == self@,
    {
        let mut entries: Vec<ProfileEntry> = Vec::new();
        let mut i: usize = 0;
        while i < self.entries.len()
            invariant
                i <= self.entries@.len(),
                entries@.len() == i,
                forall|j: int|
                    0 <= j < i ==> (#[trigger] entries@[j]).name@ == self.entries@[j].name@
                        && entries@[j].profile@ == self.entries@[j].profile@,
            decreases self.entries.len() - i,
        {
            let entry = &self.entries[i];
            entries.push(ProfileEntry { name: entry.name.clone(), profile: entry.profile.clone() });
            i = i + 1;
        }
        let copy = Profiles { entries };
        assert(copy@ =~= self@);
        copy
    }
}

} // verus!
