//! The settings store: the table, validated writes, and reads.

use vstd::prelude::*;
use crate::assoc::{
    as_map, distinct, found_at, lemma_empty, lemma_entry, lemma_push, lemma_replace,
    lemma_take_step,
};
use crate::key::{SettingId, SettingKey};
use crate::schema::{
    lemma_names_differ, rule_for, rule_of, schema_holds, seeded_table, valid_setting,
    ValidationError, ACCENT_COLOR, APPEARANCE, CLOCK_FORMAT, COLOR_SCHEME, CONTRAST,
    CURSOR_THEME, FONT_NAME, GTK_THEME, ICON_THEME, INTERFACE, MONOSPACE_FONT_NAME, PRIVACY,
    RECENT_FILES_MAX_AGE, REMEMBER_RECENT_FILES,
};
use crate::snapshot::{flat_of, grouped, lemma_group_flat, selection, SettingsSnapshot};
use crate::text::str_eq;
use crate::value::{SettingValue, ValueView};

verus! {

/// What a table holds for the setting `key` of `namespace`.
pub open spec fn lookup(table: Map<SettingId, ValueView>, namespace: Seq<char>, key: Seq<char>)
    -> Option<ValueView> {
    if table.dom().contains((namespace, key)) {
        Some(table[(namespace, key)])
    } else {
        None
    }
}

/// The table after a write of `value` to the setting `key` of `namespace`:
/// an accepted write puts the value under the setting, a rejected one
/// changes nothing.
pub open spec fn table_after_write(
    table: Map<SettingId, ValueView>,
    namespace: Seq<char>,
    key: Seq<char>,
    value: ValueView,
) -> Map<SettingId, ValueView> {
    if valid_setting(namespace, key, value) {
        table.insert((namespace, key), value)
    } else {
        table
    }
}

/// The entries as pairs of mathematical values.
pub(crate) open spec fn pairs_of(entries: Seq<(SettingKey, SettingValue)>) -> Seq<
    (SettingId, ValueView),
> {
    Seq::new(entries.len(), |i: int| (entries[i].0@, entries[i].1@))
}

/// The index of the entry of the setting `key` of `namespace`, if there is one.
fn position(entries: &Vec<(SettingKey, SettingValue)>, namespace: &str, key: &str) -> (at: Option<
    usize,
>)
    ensures
        match at {
            Some(i) => found_at(pairs_of(entries@), i as int, (namespace@, key@)),
            None => forall|i: int| !found_at(pairs_of(entries@), i, (namespace@, key@)),
        },
{
    let mut i: usize = 0;
    while i < entries.len()
        invariant
            i <= entries.len(),
            forall|j: int| 0 <= j < i ==> !found_at(pairs_of(entries@), j, (namespace@, key@)),
        decreases entries.len() - i,
    {
        if entries[i].0.names(namespace, key) {
            return Some(i);
        }
        i += 1;
    }
    None
}

/// Whether `text` is one of the texts of `list`.
fn contains_text(list: &Vec<String>, text: &str) -> (present: bool)
    ensures
        present == list.deep_view().contains(text@),
{
    let mut i: usize = 0;
    while i < list.len()
        invariant
            i <= list.len(),
            forall|j: int| 0 <= j < i ==> list.deep_view()[j] != text@,
        decreases list.len() - i,
    {
        if str_eq(list[i].as_str(), text) {
            assert(list.deep_view()[i as int] == text@);
            return true;
        }
        i += 1;
    }
    false
}

/// Puts `value` under `key`, in place of what the setting held if it was
/// present.
fn put(entries: &mut Vec<(SettingKey, SettingValue)>, key: SettingKey, value: SettingValue)
    requires
        distinct(pairs_of(old(entries)@)),
    ensures
        distinct(pairs_of(final(entries)@)),
        as_map(pairs_of(final(entries)@)) == as_map(pairs_of(old(entries)@)).insert(key@, value@),
{
    let at = position(entries, key.namespace.as_str(), key.key.as_str());
    match at {
        Some(i) => {
            proof {
                lemma_replace(pairs_of(entries@), i as int, (key@, value@));
                assert(pairs_of(entries@.update(i as int, (key, value))) =~= pairs_of(
                    entries@,
                ).update(i as int, (key@, value@)));
            }
            entries.set(i, (key, value));
        },
        None => {
            proof {
                lemma_push(pairs_of(entries@), (key@, value@));
                assert(pairs_of(entries@.push((key, value))) =~= pairs_of(entries@).push(
                    (key@, value@),
                ));
            }
            entries.push((key, value));
        },
    }
}

/// The settings store: a table from settings to values, in memory.
pub struct SettingsStore {
    settings: Vec<(SettingKey, SettingValue)>,
}

impl View for SettingsStore {
    type V = Map<SettingId, ValueView>;

    closed spec fn view(&self) -> Map<SettingId, ValueView> {
        as_map(pairs_of(self.settings@))
    }
}

impl SettingsStore {
    /// A store that holds every known setting with its default.
    pub fn new() -> (store: Self)
        ensures
            store.wf(),
            store@ == seeded_table(),
    {
        let mut settings: Vec<(SettingKey, SettingValue)> = Vec::new();
        proof {
            lemma_empty::<SettingId, ValueView>();
            assert(pairs_of(settings@) =~= Seq::empty());
        }
        put(&mut settings, SettingKey::new(APPEARANCE, COLOR_SCHEME), SettingValue::U32(0));
        put(
            &mut settings,
            SettingKey::new(APPEARANCE, ACCENT_COLOR),
            SettingValue::F64Triple(0, 0, 0),
        );
        put(&mut settings, SettingKey::new(APPEARANCE, CONTRAST), SettingValue::U32(0));
        put(
            &mut settings,
            SettingKey::new(INTERFACE, GTK_THEME),
            SettingValue::Str("Adwaita".to_owned()),
        );
        put(
            &mut settings,
            SettingKey::new(INTERFACE, ICON_THEME),
            SettingValue::Str("Adwaita".to_owned()),
        );
        put(
            &mut settings,
            SettingKey::new(INTERFACE, CURSOR_THEME),
            SettingValue::Str("Adwaita".to_owned()),
        );
        put(
            &mut settings,
            SettingKey::new(INTERFACE, FONT_NAME),
            SettingValue::Str("Cantarell 11".to_owned()),
        );
        put(
            &mut settings,
            SettingKey::new(INTERFACE, MONOSPACE_FONT_NAME),
            SettingValue::Str("Source Code Pro 10".to_owned()),
        );
        put(
            &mut settings,
            SettingKey::new(INTERFACE, CLOCK_FORMAT),
            SettingValue::Str("24h".to_owned()),
        );
        put(
            &mut settings,
            SettingKey::new(PRIVACY, REMEMBER_RECENT_FILES),
            SettingValue::Bool(true),
        );
        put(&mut settings, SettingKey::new(PRIVACY, RECENT_FILES_MAX_AGE), SettingValue::I32(30));
        proof {
            lemma_names_differ();
            assert(as_map(pairs_of(settings@)) =~= seeded_table());
            lemma_seeded_table_holds();
        }
        SettingsStore { settings }
    }

    /// The store is well formed: no setting has two entries, and the table
    /// satisfies the schema.
    pub closed spec fn wf(&self) -> bool {
        &&& distinct(pairs_of(self.settings@))
        &&& schema_holds(self@)
    }

    /// Every well-formed store holds a table that satisfies the schema.
    pub proof fn lemma_wf_schema(&self)
        requires
            self.wf(),
        ensures
            schema_holds(self@),
    {
    }

    /// The value of the setting `key` of `namespace`, if the table holds one.
    /// The value returned is a copy of its own.
    pub fn read(&self, namespace: &str, key: &str) -> (found: Option<SettingValue>)
        requires
            self.wf(),
        ensures
            match found {
                Some(value) => lookup(self@, namespace@, key@) == Some(value@),
                None => lookup(self@, namespace@, key@) is None,
            },
            rule_of(namespace@, key@) is Some ==> found is Some,
    {
        match position(&self.settings, namespace, key) {
            Some(i) => {
                proof {
                    lemma_entry(pairs_of(self.settings@), i as int);
                }
                Some(self.settings[i].1.clone())
            },
            None => {
                assert(!self@.dom().contains((namespace@, key@)));
                None
            },
        }
    }

    /// The settings of the namespaces in `namespaces`, or all settings if the
    /// list is empty, grouped by namespace. Each value is a copy of its own.
    /// A namespace of which the table holds no setting does not occur in the
    /// result.
    pub fn read_all(&self, namespaces: Vec<String>) -> (snapshot: SettingsSnapshot)
        requires
            self.wf(),
        ensures
            snapshot.wf(),
            snapshot@ == grouped(self@, namespaces.deep_view()),
    {
        let ghost filter = namespaces.deep_view();
        let ghost pairs = pairs_of(self.settings@);
        let mut snapshot = SettingsSnapshot::empty();
        let mut i: usize = 0;
        proof {
            lemma_empty::<SettingId, ValueView>();
            assert(pairs.take(0) =~= Seq::empty());
            assert(flat_of(snapshot@) =~= selection(as_map(pairs.take(0)), filter));
        }
        while i < self.settings.len()
            invariant
                i <= self.settings.len(),
                pairs == pairs_of(self.settings@),
                filter == namespaces.deep_view(),
                distinct(pairs),
                snapshot.wf(),
                flat_of(snapshot@) == selection(as_map(pairs.take(i as int)), filter),
            decreases self.settings.len() - i,
        {
            let entry = &self.settings[i];
            proof {
                lemma_take_step(pairs, i as int);
            }
            if namespaces.len() == 0 || contains_text(&namespaces, entry.0.namespace.as_str()) {
                snapshot.record(
                    entry.0.namespace.as_str(),
                    entry.0.key.as_str(),
                    entry.1.clone(),
                );
            }
            proof {
                assert(flat_of(snapshot@) =~= selection(as_map(pairs.take(i + 1)), filter));
            }
            i += 1;
        }
        proof {
            assert(pairs.take(i as int) =~= pairs);
            snapshot.lemma_no_empty_group();
            lemma_group_flat(snapshot@);
        }
        snapshot
    }

    /// Checks `value` against the rule of the setting `key` of `namespace`.
    /// A setting that the schema does not know accepts every value.
    pub fn validate_setting(&self, namespace: &str, key: &str, value: &SettingValue) -> (outcome:
        Result<(), ValidationError>)
        ensures
            outcome is Ok <==> valid_setting(namespace@, key@, value@),
            outcome matches Err(error) ==> {
                &&& error.namespace@ == namespace@
                &&& error.key@ == key@
                &&& rule_of(namespace@, key@) matches Some(rule)
                &&& error.expected@ == rule.expected()
            },
    {
        match rule_for(namespace, key) {
            Some(rule) => {
                if rule.accepts(value) {
                    Ok(())
                } else {
                    Err(
                        ValidationError {
                            namespace: namespace.to_owned(),
                            key: key.to_owned(),
                            expected: rule.describe(),
                        },
                    )
                }
            },
            None => Ok(()),
        }
    }

    /// Writes `value` to the setting `key` of `namespace`.
    ///
    /// The value is checked first. An accepted value takes the place of what
    /// the setting held, or is added if the setting was absent; a rejected
    /// value leaves the table as it was.
    pub fn write(&mut self, namespace: &str, key: &str, value: SettingValue) -> (outcome: Result<
        (),
        ValidationError,
    >)
        requires
            old(self).wf(),
        ensures
            final(self).wf(),
            final(self)@ == table_after_write(old(self)@, namespace@, key@, value@),
            outcome is Ok <==> valid_setting(namespace@, key@, value@),
            outcome matches Err(error) ==> {
                &&& error.namespace@ == namespace@
                &&& error.key@ == key@
                &&& rule_of(namespace@, key@) matches Some(rule)
                &&& error.expected@ == rule.expected()
            },
            old(self)@.dom().subset_of(final(self)@.dom()),
    {
        match self.validate_setting(namespace, key, &value) {
            Err(error) => Err(error),
            Ok(()) => {
                proof {
                    lemma_write_keeps_schema(self@, namespace@, key@, value@);
                }
                put(&mut self.settings, SettingKey::new(namespace, key), value);
                Ok(())
            },
        }
    }
}

/// The table of a newly created store satisfies the schema.
pub proof fn lemma_seeded_table_holds()
    ensures
        schema_holds(seeded_table()),
{
}

/// A write keeps what holds of every table: after it each known setting is
/// still present, and each setting holds a value that its rule admits.
pub proof fn lemma_write_keeps_schema(
    table: Map<SettingId, ValueView>,
    namespace: Seq<char>,
    key: Seq<char>,
    value: ValueView,
)
    requires
        schema_holds(table),
    ensures
        schema_holds(table_after_write(table, namespace, key, value)),
{
    let after = table_after_write(table, namespace, key, value);
    assert forall|id: SettingId|
        {
            &&& rule_of(id.0, id.1) is Some ==> #[trigger] after.dom().contains(id)
            &&& after.dom().contains(id) ==> valid_setting(id.0, id.1, after[id])
        } by {
        assert(rule_of(id.0, id.1) is Some ==> table.dom().contains(id));
        assert(table.dom().contains(id) ==> valid_setting(id.0, id.1, table[id]));
    }
}

impl Default for SettingsStore {
    /// The same store as [`SettingsStore::new`] gives.
    fn default() -> (store: Self)
        ensures
            store.wf(),
            store@ == seeded_table(),
    {
        SettingsStore::new()
    }
}

} // verus!
