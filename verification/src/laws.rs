//! What holds of the store, whatever the table and the values.
//!
//! Each statement is over the models that the contracts of the store use:
//! the table as a map, [`lookup`] for a read, [`table_after_write`] for a
//! write and [`grouped`] for a read of many settings.

use vstd::prelude::*;
use crate::key::SettingId;
use crate::schema::{
    default_of, lemma_names_differ, rule_of, seeded_table, valid_setting, Rule, ACCENT_COLOR,
    APPEARANCE, CLOCK_FORMAT, COLOR_SCHEME, CONTRAST, CURSOR_THEME, FONT_NAME, GTK_THEME,
    ICON_THEME, INTERFACE, MONOSPACE_FONT_NAME, PRIVACY, RECENT_FILES_MAX_AGE,
    REMEMBER_RECENT_FILES,
};
use crate::snapshot::{group_all, grouped, selected, selection, settings_of};
use crate::store::{lookup, table_after_write};
use crate::value::ValueView;

verus! {

/// A newly created table holds each of the eleven known settings, with its
/// default.
pub proof fn law_seed_complete()
    ensures
        lookup(seeded_table(), APPEARANCE@, COLOR_SCHEME@) == Some(ValueView::U32(0)),
        lookup(seeded_table(), APPEARANCE@, ACCENT_COLOR@) == Some(ValueView::F64Triple(0, 0, 0)),
        lookup(seeded_table(), APPEARANCE@, CONTRAST@) == Some(ValueView::U32(0)),
        lookup(seeded_table(), INTERFACE@, GTK_THEME@) == Some(ValueView::Str("Adwaita"@)),
        lookup(seeded_table(), INTERFACE@, ICON_THEME@) == Some(ValueView::Str("Adwaita"@)),
        lookup(seeded_table(), INTERFACE@, CURSOR_THEME@) == Some(ValueView::Str("Adwaita"@)),
        lookup(seeded_table(), INTERFACE@, FONT_NAME@) == Some(ValueView::Str("Cantarell 11"@)),
        lookup(seeded_table(), INTERFACE@, MONOSPACE_FONT_NAME@) == Some(
            ValueView::Str("Source Code Pro 10"@),
        ),
        lookup(seeded_table(), INTERFACE@, CLOCK_FORMAT@) == Some(ValueView::Str("24h"@)),
        lookup(seeded_table(), PRIVACY@, REMEMBER_RECENT_FILES@) == Some(ValueView::Bool(true)),
        lookup(seeded_table(), PRIVACY@, RECENT_FILES_MAX_AGE@) == Some(ValueView::I32(30)),
{
    lemma_names_differ();
}

/// A newly created table holds a setting exactly if the schema knows it, and
/// then holds its default.
pub proof fn law_seed_exact(namespace: Seq<char>, key: Seq<char>)
    ensures
        lookup(seeded_table(), namespace, key) == default_of(namespace, key),
        lookup(seeded_table(), namespace, key) is Some <==> rule_of(namespace, key) is Some,
{
}

/// A write that is accepted is what the next read of the same setting
/// returns.
pub proof fn law_write_then_read(
    table: Map<SettingId, ValueView>,
    namespace: Seq<char>,
    key: Seq<char>,
    value: ValueView,
)
    requires
        valid_setting(namespace, key, value),
    ensures
        lookup(table_after_write(table, namespace, key, value), namespace, key) == Some(value),
{
}

/// For a setting that takes unsigned 32-bit values, a write of a value
/// within the range of the setting is accepted, and the next read of the
/// setting returns that value: from 0 to 2 for the colour scheme, 0 or 1 for
/// the contrast, every value for a setting that the schema does not know.
pub proof fn law_unsigned_write_then_read(
    table: Map<SettingId, ValueView>,
    namespace: Seq<char>,
    key: Seq<char>,
    v: u32,
)
    requires
        match rule_of(namespace, key) {
            Some(Rule::ColorScheme) => v <= 2,
            Some(Rule::Contrast) => v <= 1,
            Some(_) => false,
            None => true,
        },
    ensures
        valid_setting(namespace, key, ValueView::U32(v)),
        lookup(table_after_write(table, namespace, key, ValueView::U32(v)), namespace, key)
            == Some(ValueView::U32(v)),
{
}

/// The colour scheme takes an unsigned 32-bit value from 0 to 2 and nothing
/// else: a larger number is rejected, and so is a value of any other shape.
pub proof fn law_color_scheme_range(value: ValueView)
    ensures
        valid_setting(APPEARANCE@, COLOR_SCHEME@, value) <==> (value matches ValueView::U32(n)
            && n <= 2),
{
}

/// A write that is rejected leaves the table as it was, so every read
/// returns what it returned before.
pub proof fn law_rejected_write_changes_nothing(
    table: Map<SettingId, ValueView>,
    namespace: Seq<char>,
    key: Seq<char>,
    value: ValueView,
    other_namespace: Seq<char>,
    other_key: Seq<char>,
)
    requires
        !valid_setting(namespace, key, value),
    ensures
        table_after_write(table, namespace, key, value) == table,
        lookup(table_after_write(table, namespace, key, value), other_namespace, other_key)
            == lookup(table, other_namespace, other_key),
{
}

/// A setting that the schema does not know takes every value, and the next
/// read of the setting returns the value as it was written.
pub proof fn law_unknown_setting_open(
    table: Map<SettingId, ValueView>,
    namespace: Seq<char>,
    key: Seq<char>,
    value: ValueView,
)
    requires
        rule_of(namespace, key) is None,
    ensures
        valid_setting(namespace, key, value),
        lookup(table_after_write(table, namespace, key, value), namespace, key) == Some(value),
{
}

/// No write removes a setting from the table.
pub proof fn law_write_keeps_settings(
    table: Map<SettingId, ValueView>,
    namespace: Seq<char>,
    key: Seq<char>,
    value: ValueView,
)
    ensures
        table.dom().subset_of(table_after_write(table, namespace, key, value).dom()),
{
}

/// A read of many settings returns each setting of the table whose
/// namespace the filter lets through, under its namespace and key and with
/// its value, and nothing else.
pub proof fn law_filter_semantics(
    table: Map<SettingId, ValueView>,
    filter: Seq<Seq<char>>,
    namespace: Seq<char>,
    key: Seq<char>,
)
    ensures
        (grouped(table, filter).dom().contains(namespace) && grouped(
            table,
            filter,
        )[namespace].dom().contains(key)) <==> (table.dom().contains((namespace, key)) && selected(
            filter,
            namespace,
        )),
        table.dom().contains((namespace, key)) && selected(filter, namespace) ==> grouped(
            table,
            filter,
        )[namespace][key] == table[(namespace, key)],
        grouped(table, filter).dom().contains(namespace) ==> selected(filter, namespace) && exists|
            k: Seq<char>,
        | table.dom().contains((namespace, k)),
{
    let chosen = selection(table, filter);
    if table.dom().contains((namespace, key)) && selected(filter, namespace) {
        assert(chosen.dom().contains((namespace, key)));
    }
    if grouped(table, filter).dom().contains(namespace) {
        let k = choose|k: Seq<char>| chosen.dom().contains((namespace, k));
        assert(table.dom().contains((namespace, k)));
    }
}

/// With a filter of one namespace the result holds that namespace if the
/// table has a setting in it, and no other namespace.
pub proof fn law_filter_one_namespace(
    table: Map<SettingId, ValueView>,
    wanted: Seq<char>,
    namespace: Seq<char>,
)
    ensures
        grouped(table, seq![wanted]).dom().contains(namespace) <==> (namespace == wanted && exists|
            key: Seq<char>,
        | table.dom().contains((wanted, key))),
        grouped(table, seq![wanted]).dom().contains(wanted) ==> grouped(
            table,
            seq![wanted],
        )[wanted] == settings_of(table, wanted),
{
    let filter = seq![wanted];
    let chosen = selection(table, filter);
    assert(filter[0] == wanted);
    assert(selected(filter, wanted));
    if grouped(table, filter).dom().contains(namespace) {
        let k = choose|k: Seq<char>| chosen.dom().contains((namespace, k));
        assert(chosen.dom().contains((namespace, k)));
        assert(table.dom().contains((wanted, k)));
    }
    if namespace == wanted && exists|key: Seq<char>| table.dom().contains((wanted, key)) {
        let k = choose|k: Seq<char>| table.dom().contains((wanted, k));
        assert(chosen.dom().contains((wanted, k)));
    }
    if grouped(table, filter).dom().contains(wanted) {
        assert(settings_of(chosen, wanted) =~= settings_of(table, wanted));
    }
}

/// With the empty filter the result is the whole table, grouped.
pub proof fn law_no_filter(table: Map<SettingId, ValueView>)
    ensures
        grouped(table, Seq::empty()) == group_all(table),
{
    assert(selection(table, Seq::empty()) =~= table);
}

/// Read with the filter of the first namespace, a newly created table gives
/// that namespace alone, with its three settings; read without a filter it
/// gives the three namespaces of the schema.
pub proof fn law_seed_namespaces(namespace: Seq<char>)
    ensures
        grouped(seeded_table(), seq![APPEARANCE@]).dom().contains(namespace) <==> namespace
            == APPEARANCE@,
        grouped(seeded_table(), seq![APPEARANCE@])[APPEARANCE@].dom() =~= set![
            COLOR_SCHEME@,
            ACCENT_COLOR@,
            CONTRAST@,
        ],
        grouped(seeded_table(), Seq::empty()).dom().contains(namespace) <==> (namespace
            == APPEARANCE@ || namespace == INTERFACE@ || namespace == PRIVACY@),
{
    lemma_names_differ();
    let table = seeded_table();
    law_filter_one_namespace(table, APPEARANCE@, namespace);
    law_filter_one_namespace(table, APPEARANCE@, APPEARANCE@);
    law_no_filter(table);
    assert(table.dom().contains((APPEARANCE@, COLOR_SCHEME@)));
    assert(table.dom().contains((INTERFACE@, GTK_THEME@)));
    assert(table.dom().contains((PRIVACY@, REMEMBER_RECENT_FILES@)));
    if group_all(table).dom().contains(namespace) {
        let k = choose|k: Seq<char>| table.dom().contains((namespace, k));
        assert(rule_of(namespace, k) is Some);
    }
}

/// A write to one setting changes what no other setting holds.
pub proof fn law_write_leaves_other_settings(
    table: Map<SettingId, ValueView>,
    namespace: Seq<char>,
    key: Seq<char>,
    value: ValueView,
    other_namespace: Seq<char>,
    other_key: Seq<char>,
)
    requires
        (namespace, key) != (other_namespace, other_key),
    ensures
        lookup(table_after_write(table, namespace, key, value), other_namespace, other_key)
            == lookup(table, other_namespace, other_key),
{
}

/// Two writes to different settings give the same table in either order.
pub proof fn law_writes_commute(
    table: Map<SettingId, ValueView>,
    first: SettingId,
    first_value: ValueView,
    second: SettingId,
    second_value: ValueView,
)
    requires
        first != second,
    ensures
        table_after_write(
            table_after_write(table, first.0, first.1, first_value),
            second.0,
            second.1,
            second_value,
        ) == table_after_write(
            table_after_write(table, second.0, second.1, second_value),
            first.0,
            first.1,
            first_value,
        ),
{
    assert(table_after_write(
        table_after_write(table, first.0, first.1, first_value),
        second.0,
        second.1,
        second_value,
    ) =~= table_after_write(
        table_after_write(table, second.0, second.1, second_value),
        first.0,
        first.1,
        first_value,
    ));
}

/// The table after a list of writes, made one after the other.
pub open spec fn table_after_writes(
    table: Map<SettingId, ValueView>,
    writes: Seq<(SettingId, ValueView)>,
) -> Map<SettingId, ValueView>
    decreases writes.len(),
{
    if writes.len() == 0 {
        table
    } else {
        let last = writes.last();
        table_after_write(
            table_after_writes(table, writes.drop_last()),
            last.0.0,
            last.0.1,
            last.1,
        )
    }
}

/// After any number of accepted writes to settings that differ from one
/// another, made in whatever order, each of the settings holds what was
/// written to it, and every other setting holds what it held before.
pub proof fn law_writes_isolated(
    table: Map<SettingId, ValueView>,
    writes: Seq<(SettingId, ValueView)>,
    id: SettingId,
)
    requires
        forall|i: int, j: int|
            0 <= i < j < writes.len() ==> (#[trigger] writes[i]).0 != (#[trigger] writes[j]).0,
        forall|i: int|
            0 <= i < writes.len() ==> valid_setting(
                (#[trigger] writes[i]).0.0,
                writes[i].0.1,
                writes[i].1,
            ),
    ensures
        forall|i: int|
            0 <= i < writes.len() && (#[trigger] writes[i]).0 == id ==> lookup(
                table_after_writes(table, writes),
                id.0,
                id.1,
            ) == Some(writes[i].1),
        (forall|i: int| 0 <= i < writes.len() ==> (#[trigger] writes[i]).0 != id) ==> lookup(
            table_after_writes(table, writes),
            id.0,
            id.1,
        ) == lookup(table, id.0, id.1),
    decreases writes.len(),
{
    if writes.len() > 0 {
        let front = writes.drop_last();
        let last = writes.last();
        assert forall|i: int, j: int| 0 <= i < j < front.len() implies (#[trigger] front[i]).0 != (
        #[trigger] front[j]).0 by {
            assert(front[i] == writes[i]);
            assert(front[j] == writes[j]);
        }
        assert forall|i: int| 0 <= i < front.len() implies valid_setting(
            (#[trigger] front[i]).0.0,
            front[i].0.1,
            front[i].1,
        ) by {
            assert(front[i] == writes[i]);
        }
        law_writes_isolated(table, front, id);
        assert(last == writes[writes.len() - 1]);
        assert forall|i: int| 0 <= i < writes.len() && (#[trigger] writes[i]).0 == id implies lookup(
            table_after_writes(table, writes),
            id.0,
            id.1,
        ) == Some(writes[i].1) by {
            if i < writes.len() - 1 {
                assert(front[i] == writes[i]);
                assert(writes[i].0 != writes[writes.len() - 1].0);
            }
        }
        if forall|i: int| 0 <= i < writes.len() ==> (#[trigger] writes[i]).0 != id {
            assert forall|i: int| 0 <= i < front.len() implies (#[trigger] front[i]).0 != id by {
                assert(front[i] == writes[i]);
            }
        }
    }
}

} // verus!
