//! What a read of many settings returns: the settings grouped by namespace.

use vstd::prelude::*;
use crate::assoc::{
    as_map, distinct, found_at, lemma_absent, lemma_empty, lemma_entry, lemma_len, lemma_push,
    lemma_replace,
};
use crate::key::SettingId;
use crate::text::str_eq;
use crate::value::{SettingValue, ValueView};

verus! {

/// Settings grouped by namespace, as a mathematical value: from each
/// namespace to its settings, from key to value.
pub type Grouping = Map<Seq<char>, Map<Seq<char>, ValueView>>;

/// Whether a filter lets a namespace through. The empty filter lets every
/// namespace through.
pub open spec fn selected(filter: Seq<Seq<char>>, namespace: Seq<char>) -> bool {
    filter.len() == 0 || filter.contains(namespace)
}

/// The part of a table whose namespaces the filter lets through.
pub open spec fn selection(table: Map<SettingId, ValueView>, filter: Seq<Seq<char>>) -> Map<
    SettingId,
    ValueView,
> {
    Map::new(
        |id: SettingId| table.dom().contains(id) && selected(filter, id.0),
        |id: SettingId| table[id],
    )
}

/// The settings that a table holds in one namespace, by key.
pub open spec fn settings_of(table: Map<SettingId, ValueView>, namespace: Seq<char>) -> Map<
    Seq<char>,
    ValueView,
> {
    Map::new(
        |key: Seq<char>| table.dom().contains((namespace, key)),
        |key: Seq<char>| table[(namespace, key)],
    )
}

/// A table grouped by namespace. A namespace in which the table holds no
/// setting does not occur.
pub open spec fn group_all(table: Map<SettingId, ValueView>) -> Grouping {
    Map::new(
        |namespace: Seq<char>| exists|key: Seq<char>| table.dom().contains((namespace, key)),
        |namespace: Seq<char>| settings_of(table, namespace),
    )
}

/// What a read of all settings under a filter returns: the entries whose
/// namespace the filter lets through, grouped by namespace.
pub open spec fn grouped(table: Map<SettingId, ValueView>, filter: Seq<Seq<char>>) -> Grouping {
    group_all(selection(table, filter))
}

/// The table that a grouping holds, with the groups taken apart again.
pub open spec fn flat_of(grouping: Grouping) -> Map<SettingId, ValueView> {
    Map::new(
        |id: SettingId| grouping.dom().contains(id.0) && grouping[id.0].dom().contains(id.1),
        |id: SettingId| grouping[id.0][id.1],
    )
}

/// No namespace of the grouping is without a setting.
pub open spec fn no_empty_group(grouping: Grouping) -> bool {
    forall|namespace: Seq<char>| #[trigger]
        grouping.dom().contains(namespace) ==> exists|key: Seq<char>|
            grouping[namespace].dom().contains(key)
}

/// Grouping the table of a grouping gives the grouping back, if none of its
/// namespaces is without a setting.
pub proof fn lemma_group_flat(grouping: Grouping)
    requires
        no_empty_group(grouping),
    ensures
        group_all(flat_of(grouping)) == grouping,
{
    let flat = flat_of(grouping);
    let again = group_all(flat);
    assert forall|namespace: Seq<char>| again.dom().contains(namespace) == grouping.dom().contains(
        namespace,
    ) by {
        if grouping.dom().contains(namespace) {
            let key = choose|key: Seq<char>| grouping[namespace].dom().contains(key);
            assert(flat.dom().contains((namespace, key)));
        }
        if again.dom().contains(namespace) {
            let key = choose|key: Seq<char>| flat.dom().contains((namespace, key));
            assert(flat.dom().contains((namespace, key)));
        }
    }
    assert forall|namespace: Seq<char>| again.dom().contains(namespace) implies again[namespace]
        == grouping[namespace] by {
        assert forall|key: Seq<char>|
            again[namespace].dom().contains(key) == grouping[namespace].dom().contains(key) by {
            assert(flat.dom().contains((namespace, key)) == grouping[namespace].dom().contains(
                key,
            ));
        }
        assert(again[namespace] =~= grouping[namespace]);
    }
    assert(again =~= grouping);
}

/// The values of a group as pairs of mathematical values.
pub open spec fn value_pairs(values: Seq<(String, SettingValue)>) -> Seq<(Seq<char>, ValueView)> {
    Seq::new(values.len(), |i: int| (values[i].0@, values[i].1@))
}

/// The settings of one namespace.
#[derive(Debug)]
pub struct NamespaceSettings {
    namespace: String,
    values: Vec<(String, SettingValue)>,
}

impl View for NamespaceSettings {
    type V = Map<Seq<char>, ValueView>;

    closed spec fn view(&self) -> Map<Seq<char>, ValueView> {
        as_map(value_pairs(self.values@))
    }
}

impl NamespaceSettings {
    /// The name of the namespace.
    pub closed spec fn name(&self) -> Seq<char> {
        self.namespace@
    }

    /// The group is well formed: it holds a setting, and no key twice.
    pub closed spec fn wf(&self) -> bool {
        &&& distinct(value_pairs(self.values@))
        &&& self.values@.len() > 0
    }

    /// A well-formed group holds at least one setting.
    pub proof fn lemma_not_empty(&self)
        requires
            self.wf(),
        ensures
            exists|key: Seq<char>| self@.dom().contains(key),
    {
        lemma_entry(value_pairs(self.values@), 0);
        assert(self@.dom().contains(value_pairs(self.values@)[0].0));
    }

    /// The name of the namespace.
    pub fn namespace(&self) -> (name: &str)
        ensures
            name@ == self.name(),
    {
        self.namespace.as_str()
    }

    /// The number of settings in the group.
    pub fn len(&self) -> (count: usize)
        requires
            self.wf(),
        ensures
            self@.dom().finite(),
            count == self@.dom().len(),
            count > 0,
    {
        proof {
            lemma_len(value_pairs(self.values@));
        }
        self.values.len()
    }

    /// The index of the setting `key`, if the group holds it.
    fn position(&self, key: &str) -> (at: Option<usize>)
        ensures
            match at {
                Some(i) => found_at(value_pairs(self.values@), i as int, key@),
                None => forall|i: int| !found_at(value_pairs(self.values@), i, key@),
            },
    {
        let mut i: usize = 0;
        while i < self.values.len()
            invariant
                i <= self.values.len(),
                forall|j: int| 0 <= j < i ==> !found_at(value_pairs(self.values@), j, key@),
            decreases self.values.len() - i,
        {
            if str_eq(self.values[i].0.as_str(), key) {
                return Some(i);
            }
            i += 1;
        }
        None
    }

    /// Whether the group holds the setting `key`.
    pub fn contains_key(&self, key: &str) -> (present: bool)
        ensures
            present == self@.dom().contains(key@),
    {
        match self.position(key) {
            Some(i) => true,
            None => false,
        }
    }

    /// The value of the setting `key`, if the group holds it.
    pub fn get(&self, key: &str) -> (found: Option<&SettingValue>)
        requires
            self.wf(),
        ensures
            match found {
                Some(value) => self@.dom().contains(key@) && self@[key@] == value@,
                None => !self@.dom().contains(key@),
            },
    {
        match self.position(key) {
            Some(i) => {
                proof {
                    lemma_entry(value_pairs(self.values@), i as int);
                }
                Some(&self.values[i].1)
            },
            None => None,
        }
    }

    /// The settings of the group as a list of keys with their values, no key
    /// twice.
    pub fn into_values(self) -> (values: Vec<(String, SettingValue)>)
        requires
            self.wf(),
        ensures
            distinct(value_pairs(values@)),
            as_map(value_pairs(values@)) == self@,
            values@.len() > 0,
    {
        self.values
    }

    /// A group with one setting.
    pub(crate) fn single(namespace: &str, key: &str, value: SettingValue) -> (group: Self)
        ensures
            group.wf(),
            group.name() == namespace@,
            group@ == Map::<Seq<char>, ValueView>::empty().insert(key@, value@),
    {
        let mut values: Vec<(String, SettingValue)> = Vec::new();
        proof {
            lemma_empty::<Seq<char>, ValueView>();
            assert(value_pairs(values@) =~= Seq::empty());
            lemma_push(value_pairs(values@), (key@, value@));
        }
        let owned = key.to_owned();
        proof {
            assert(value_pairs(values@.push((owned, value))) =~= value_pairs(values@).push(
                (key@, value@),
            ));
        }
        values.push((owned, value));
        NamespaceSettings { namespace: namespace.to_owned(), values }
    }

    /// Adds a setting that the group does not hold yet.
    pub(crate) fn add(&mut self, key: &str, value: SettingValue)
        requires
            old(self).wf(),
            !old(self)@.dom().contains(key@),
        ensures
            final(self).wf(),
            final(self).name() == old(self).name(),
            final(self)@ == old(self)@.insert(key@, value@),
    {
        let owned = key.to_owned();
        proof {
            lemma_push(value_pairs(self.values@), (key@, value@));
            assert(value_pairs(self.values@.push((owned, value))) =~= value_pairs(
                self.values@,
            ).push((key@, value@)));
        }
        self.values.push((owned, value));
    }
}

/// The groups of a snapshot as pairs of mathematical values.
pub open spec fn group_pairs(groups: Seq<NamespaceSettings>) -> Seq<
    (Seq<char>, Map<Seq<char>, ValueView>),
> {
    Seq::new(groups.len(), |i: int| (groups[i].name(), groups[i]@))
}

/// Each group of the list is well formed.
pub open spec fn groups_wf(groups: Seq<NamespaceSettings>) -> bool {
    forall|i: int| 0 <= i < groups.len() ==> (#[trigger] groups[i]).wf()
}

/// Settings read at one moment, grouped by namespace.
#[derive(Debug)]
pub struct SettingsSnapshot {
    groups: Vec<NamespaceSettings>,
}

impl View for SettingsSnapshot {
    type V = Grouping;

    closed spec fn view(&self) -> Grouping {
        as_map(group_pairs(self.groups@))
    }
}

impl SettingsSnapshot {
    /// The snapshot is well formed: no namespace has two groups, and each
    /// group is well formed.
    pub closed spec fn wf(&self) -> bool {
        &&& distinct(group_pairs(self.groups@))
        &&& groups_wf(self.groups@)
    }

    /// In a well-formed snapshot no namespace is without a setting.
    pub proof fn lemma_no_empty_group(&self)
        requires
            self.wf(),
        ensures
            no_empty_group(self@),
    {
        let pairs = group_pairs(self.groups@);
        assert forall|namespace: Seq<char>| #[trigger]
            self@.dom().contains(namespace) implies exists|key: Seq<char>|
            self@[namespace].dom().contains(key) by {
            let i = choose|i: int| found_at(pairs, i, namespace);
            lemma_entry(pairs, i);
            assert(self.groups@[i].wf());
            self.groups@[i].lemma_not_empty();
        }
    }

    /// The snapshot without any setting.
    pub(crate) fn empty() -> (snapshot: Self)
        ensures
            snapshot.wf(),
            snapshot@ == Map::<Seq<char>, Map<Seq<char>, ValueView>>::empty(),
    {
        let groups: Vec<NamespaceSettings> = Vec::new();
        proof {
            lemma_empty::<Seq<char>, Map<Seq<char>, ValueView>>();
            assert(group_pairs(groups@) =~= Seq::empty());
        }
        SettingsSnapshot { groups }
    }

    /// The index of the group of `namespace`, if the snapshot has one.
    fn position(&self, namespace: &str) -> (at: Option<usize>)
        ensures
            match at {
                Some(i) => found_at(group_pairs(self.groups@), i as int, namespace@),
                None => forall|i: int| !found_at(group_pairs(self.groups@), i, namespace@),
            },
    {
        let mut i: usize = 0;
        while i < self.groups.len()
            invariant
                i <= self.groups.len(),
                forall|j: int| 0 <= j < i ==> !found_at(group_pairs(self.groups@), j, namespace@),
            decreases self.groups.len() - i,
        {
            if str_eq(self.groups[i].namespace(), namespace) {
                return Some(i);
            }
            i += 1;
        }
        None
    }

    /// The number of namespaces in the snapshot.
    pub fn len(&self) -> (count: usize)
        requires
            self.wf(),
        ensures
            self@.dom().finite(),
            count == self@.dom().len(),
    {
        proof {
            lemma_len(group_pairs(self.groups@));
        }
        self.groups.len()
    }

    /// Whether the snapshot holds settings of `namespace`.
    pub fn contains_key(&self, namespace: &str) -> (present: bool)
        ensures
            present == self@.dom().contains(namespace@),
    {
        match self.position(namespace) {
            Some(i) => true,
            None => false,
        }
    }

    /// The settings of `namespace`, if the snapshot holds any.
    pub fn get(&self, namespace: &str) -> (found: Option<&NamespaceSettings>)
        requires
            self.wf(),
        ensures
            match found {
                Some(group) => {
                    &&& self@.dom().contains(namespace@)
                    &&& self@[namespace@] == group@
                    &&& group.name() == namespace@
                    &&& group.wf()
                },
                None => !self@.dom().contains(namespace@),
            },
    {
        match self.position(namespace) {
            Some(i) => {
                proof {
                    lemma_entry(group_pairs(self.groups@), i as int);
                }
                Some(&self.groups[i])
            },
            None => None,
        }
    }

    /// The groups of the snapshot as a list, no namespace twice.
    pub fn into_groups(self) -> (groups: Vec<NamespaceSettings>)
        requires
            self.wf(),
        ensures
            distinct(group_pairs(groups@)),
            groups_wf(groups@),
            as_map(group_pairs(groups@)) == self@,
    {
        self.groups
    }

    /// Adds a setting that the snapshot does not hold yet, to the group of
    /// its namespace; the group is created if the namespace had none.
    pub(crate) fn record(&mut self, namespace: &str, key: &str, value: SettingValue)
        requires
            old(self).wf(),
            !flat_of(old(self)@).dom().contains((namespace@, key@)),
        ensures
            final(self).wf(),
            flat_of(final(self)@) == flat_of(old(self)@).insert((namespace@, key@), value@),
    {
        let ghost before = self@;
        let ghost pairs = group_pairs(self.groups@);
        match self.position(namespace) {
            Some(i) => {
                proof {
                    lemma_entry(pairs, i as int);
                }
                let ghost inner = self.groups@[i as int]@;
                self.groups[i].add(key, value);
                proof {
                    assert(group_pairs(self.groups@) =~= pairs.update(
                        i as int,
                        (namespace@, inner.insert(key@, value@)),
                    ));
                    lemma_replace(pairs, i as int, (namespace@, inner.insert(key@, value@)));
                    assert(self@ == before.insert(namespace@, inner.insert(key@, value@)));
                    assert(flat_of(self@) =~= flat_of(before).insert(
                        (namespace@, key@),
                        value@,
                    ));
                }
            },
            None => {
                let group = NamespaceSettings::single(namespace, key, value);
                proof {
                    lemma_absent(pairs, namespace@);
                    lemma_push(pairs, (namespace@, group@));
                    assert(group_pairs(self.groups@.push(group)) =~= pairs.push(
                        (namespace@, group@),
                    ));
                }
                self.groups.push(group);
                proof {
                    assert(self@ == before.insert(
                        namespace@,
                        Map::<Seq<char>, ValueView>::empty().insert(key@, value@),
                    ));
                    assert(flat_of(self@) =~= flat_of(before).insert(
                        (namespace@, key@),
                        value@,
                    ));
                }
            },
        }
    }
}

} // verus!
