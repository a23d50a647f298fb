//! Properties of the library as a whole, over the specifications that its functions'
//! contracts use.
use vstd::prelude::*;
use crate::meta::{Meta, NestedMeta, Lit, meta_value};
use crate::helper::{metas_value, attr_value, metas_groups, group_value, group_allowed, nested_attr_value, nested_groups, groups_lookup, ns_or_empty, unsupported_message};
use crate::derive_input::{DeriveInput, Field, named_fields};
use crate::inflect::{snake_case, table_case, foreign_key_of};
use crate::model::{column_of, associations_of, belongs_to_all, has_one_all, belongs_to_groups, has_one_groups, first_name, through_of, through_chain, through_steps, through_item, value_or, ThroughStepView, AssociationKind, AssociationView, ThroughView, columns_of, ColumnView, ModelView, Outcome, expand, model_arg_names, belongs_to_of, has_one_of};
use crate::orm::{association_named, through_named, find_association, find_through, column_for_attr, attr_for_column, attr_names_of, column_names, record_value, field_index, FieldValue};
use crate::query::{Value, QueryView, select_sql, value_sql, join, condition_sql, decimal, digit_text, escaped};

verus! {

/// No two column entries name the same field.
pub open spec fn distinct_attrs(cols: Seq<ColumnView>) -> bool {
    forall|i: int, j: int| 0 <= i < j < cols.len() ==> cols[i].attr_name != cols[j].attr_name
}

/// No two column entries name the same column.
pub open spec fn distinct_columns(cols: Seq<ColumnView>) -> bool {
    forall|i: int, j: int| 0 <= i < j < cols.len() ==> cols[i].column_name != cols[j].column_name
}

/// No two fields of a definition have the same name.
pub open spec fn distinct_fields(fs: Seq<Field>) -> bool {
    forall|i: int, j: int| 0 <= i < j < fs.len() ==> fs[i].ident@ != fs[j].ident@
}

/// The entries after the first keep their names distinct.
proof fn lemma_distinct_rest(cols: Seq<ColumnView>)
    requires
        cols.len() > 0,
    ensures
        distinct_attrs(cols) ==> distinct_attrs(cols.drop_first()),
        distinct_columns(cols) ==> distinct_columns(cols.drop_first()),
{
    let rest = cols.drop_first();
    if distinct_attrs(cols) {
        assert forall|a: int, b: int| 0 <= a < b < rest.len() implies rest[a].attr_name != rest[b].attr_name by {
            assert(rest[a] == cols[a + 1] && rest[b] == cols[b + 1]);
        }
    }
    if distinct_columns(cols) {
        assert forall|a: int, b: int| 0 <= a < b < rest.len() implies rest[a].column_name != rest[b].column_name by {
            assert(rest[a] == cols[a + 1] && rest[b] == cols[b + 1]);
        }
    }
}

/// With distinct field names, looking up the column of the `i`-th field gives the `i`-th
/// column.
pub proof fn lemma_column_of_field_at(cols: Seq<ColumnView>, i: int)
    requires
        distinct_attrs(cols),
        0 <= i < cols.len(),
    ensures
        column_for_attr(cols, cols[i].attr_name) == Some(cols[i].column_name),
    decreases cols.len(),
{
    if i > 0 {
        lemma_distinct_rest(cols);
        lemma_column_of_field_at(cols.drop_first(), i - 1);
        assert(cols.drop_first()[i - 1] == cols[i]);
    }
}

/// With distinct column names, looking up the field of the `i`-th column gives the
/// `i`-th field.
pub proof fn lemma_field_of_column_at(cols: Seq<ColumnView>, i: int)
    requires
        distinct_columns(cols),
        0 <= i < cols.len(),
    ensures
        attr_for_column(cols, cols[i].column_name) == Some(cols[i].attr_name),
    decreases cols.len(),
{
    if i > 0 {
        lemma_distinct_rest(cols);
        lemma_field_of_column_at(cols.drop_first(), i - 1);
        assert(cols.drop_first()[i - 1] == cols[i]);
    }
}

/// In a model with distinct field names, the column looked up for the field at position
/// `i` of `attr_names` is the column at position `i` of `table_column_names`.
pub proof fn lemma_field_lookup_by_position(m: ModelView, i: int)
    requires
        distinct_attrs(m.columns),
        0 <= i < m.columns.len(),
    ensures
        column_for_attr(m.columns, attr_names_of(m)[i]) == Some(column_names(m)[i]),
{
    lemma_column_of_field_at(m.columns, i);
}

/// In a model whose fields and columns are all distinct, the column looked up for the
/// `i`-th field is the `i`-th column, and the field looked up for it is that field: the
/// two lookups undo each other, either way round.
pub proof fn lemma_column_lookups_inverse(cols: Seq<ColumnView>, i: int)
    requires
        distinct_attrs(cols),
        distinct_columns(cols),
        0 <= i < cols.len(),
    ensures
        column_for_attr(cols, cols[i].attr_name) == Some(cols[i].column_name),
        attr_for_column(cols, cols[i].column_name) == Some(cols[i].attr_name),
        attr_for_column(cols, column_for_attr(cols, cols[i].attr_name).unwrap()) == Some(cols[i].attr_name),
        column_for_attr(cols, attr_for_column(cols, cols[i].column_name).unwrap()) == Some(cols[i].column_name),
{
    lemma_column_of_field_at(cols, i);
    lemma_field_of_column_at(cols, i);
}

/// The fields of an expanded model are the definition's fields, in order; so they are
/// pairwise distinct when the definition's are.
pub proof fn lemma_expanded_fields(d: DeriveInput, args: Seq<NestedMeta>)
    requires
        expand(d, args) is Value,
    ensures
        named_fields(d) is Some,
        attr_names_of(expand(d, args)->Value_0) == named_fields(d).unwrap().map_values(|f: Field| f.ident@),
        distinct_fields(named_fields(d).unwrap()) ==> distinct_attrs(expand(d, args)->Value_0.columns),
{
    let m = expand(d, args)->Value_0;
    let fs = named_fields(d).unwrap();
    assert(m.columns == columns_of(fs));
    assert(attr_names_of(m) =~= fs.map_values(|f: Field| f.ident@));
    if distinct_fields(fs) {
        assert forall|i: int, j: int| 0 <= i < j < m.columns.len() implies m.columns[i].attr_name != m.columns[j].attr_name by {
            assert(m.columns[i].attr_name == fs[i].ident@);
            assert(m.columns[j].attr_name == fs[j].ident@);
        }
    }
}

/// Looking up the column of a field fails exactly when the model has no such field, and
/// looking up the field of a column exactly when it has no such column.
pub proof fn lemma_lookup_fails_iff_unknown(cols: Seq<ColumnView>, name: Seq<char>)
    ensures
        column_for_attr(cols, name) is None <==> !cols.map_values(|c: ColumnView| c.attr_name).contains(name),
        attr_for_column(cols, name) is None <==> !cols.map_values(|c: ColumnView| c.column_name).contains(name),
    decreases cols.len(),
{
    let attrs = cols.map_values(|c: ColumnView| c.attr_name);
    let columns = cols.map_values(|c: ColumnView| c.column_name);
    if cols.len() > 0 {
        let rest = cols.drop_first();
        lemma_lookup_fails_iff_unknown(rest, name);
        let ra = rest.map_values(|c: ColumnView| c.attr_name);
        let rc = rest.map_values(|c: ColumnView| c.column_name);
        assert(attrs =~= seq![cols[0].attr_name] + ra);
        assert(columns =~= seq![cols[0].column_name] + rc);
        assert(attrs[0] == cols[0].attr_name);
        assert(columns[0] == cols[0].column_name);
        if attrs.contains(name) {
            let k = choose|k: int| 0 <= k < attrs.len() && #[trigger] attrs[k] == name;
            if k > 0 {
                assert(ra[k - 1] == name);
            }
        }
        if columns.contains(name) {
            let k = choose|k: int| 0 <= k < columns.len() && #[trigger] columns[k] == name;
            if k > 0 {
                assert(rc[k - 1] == name);
            }
        }
        if ra.contains(name) {
            let k = choose|k: int| 0 <= k < ra.len() && #[trigger] ra[k] == name;
            assert(attrs[k + 1] == name);
        }
        if rc.contains(name) {
            let k = choose|k: int| 0 <= k < rc.len() && #[trigger] rc[k] == name;
            assert(columns[k + 1] == name);
        }
    } else {
        assert(!attrs.contains(name));
        assert(!columns.contains(name));
    }
}

/// A model has as many column names as field names.
pub proof fn lemma_columns_match_fields(m: ModelView)
    ensures
        column_names(m).len() == attr_names_of(m).len(),
        forall|i: int| 0 <= i < column_names(m).len() ==> column_names(m)[i] == m.columns[i].column_name
            && #[trigger] attr_names_of(m)[i] == m.columns[i].attr_name,
{
}

/// Looking up a pair in one list with accepted names: when every item passes, the value of
/// the first such pair; otherwise the unsupported-name error, wherever the wanted pair is.
pub proof fn lemma_checked_lookup(g: Seq<NestedMeta>, attr: Seq<char>, allow: Seq<Seq<char>>)
    ensures
        group_allowed(g, Some(allow)) ==> nested_attr_value(g, attr, None, Some(allow)) == Ok::<Option<Seq<char>>, Seq<char>>(group_value(g, attr)),
        !group_allowed(g, Some(allow)) ==> nested_attr_value(g, attr, None, Some(allow)) == Err::<Option<Seq<char>>, Seq<char>>(unsupported_message(allow)),
{
    assert(ns_or_empty(None) =~= Seq::<Seq<char>>::empty());
    assert(nested_groups(g, ns_or_empty(None)) =~= seq![g]);
    assert(seq![g].drop_first() =~= Seq::<Seq<NestedMeta>>::empty());
    assert(groups_lookup(Seq::<Seq<NestedMeta>>::empty(), attr, Some(allow)) == Ok::<Option<Seq<char>>, Seq<char>>(None));
    assert(seq![g][0] == g);
}

/// A model expanded from arguments without a `table_name` pair has the table-case form of
/// the struct's name as its table; without a `primary_key` pair, `id` as its primary key.
pub proof fn lemma_expand_defaults(d: DeriveInput, args: Seq<NestedMeta>)
    requires
        expand(d, args) is Value,
    ensures
        group_value(args, "table_name"@) is None ==> expand(d, args)->Value_0.table_name == table_case(d.ident@),
        group_value(args, "table_name"@) matches Some(t) ==> expand(d, args)->Value_0.table_name == t,
        group_value(args, "primary_key"@) is None ==> expand(d, args)->Value_0.primary_key == "id"@,
        group_value(args, "primary_key"@) matches Some(p) ==> expand(d, args)->Value_0.primary_key == p,
{
    lemma_checked_lookup(args, "table_name"@, model_arg_names());
    lemma_checked_lookup(args, "primary_key"@, model_arg_names());
}

/// An expansion with an argument pair whose name is not accepted fails with the
/// unsupported-name error, when the definition is a struct with named fields.
pub proof fn lemma_unaccepted_argument_fails(d: DeriveInput, args: Seq<NestedMeta>)
    requires
        !group_allowed(args, Some(model_arg_names())),
        crate::derive_input::named_fields(d) is Some,
    ensures
        expand(d, args) == Outcome::<ModelView>::Error(unsupported_message(model_arg_names())),
{
    lemma_checked_lookup(args, "table_name"@, model_arg_names());
}

/// A `belongs_to` association without a `foreign_key` refers to the associated struct by
/// the snake-case form of its name followed by `_id`.
pub proof fn lemma_belongs_to_default_key(g: Seq<NestedMeta>)
    requires
        belongs_to_of(g) matches Outcome::Value(Some(_)),
        group_value(g, "foreign_key"@) is None,
    ensures
        belongs_to_of(g)->Value_0.unwrap().foreign_key == foreign_key_of(snake_case(belongs_to_of(g)->Value_0.unwrap().struct_name)),
{
}

/// A `has_one` association without a `foreign_key` is held by the other struct under
/// the snake-case form of this struct's name followed by `_id`.
pub proof fn lemma_has_one_default_key(g: Seq<NestedMeta>, self_name: Seq<char>)
    requires
        has_one_of(g, self_name) matches Outcome::Value(Some(_)),
        group_value(g, "foreign_key"@) is None,
    ensures
        has_one_of(g, self_name)->Value_0.unwrap().foreign_key == foreign_key_of(snake_case(self_name)),
{
}

/// The SQL of a query on a table with no condition and no limit.
pub proof fn lemma_select_all_sql(table: Seq<char>)
    ensures
        select_sql(QueryView { table_name: table, conditions: seq![], limit: None }) == "SELECT * FROM "@ + table,
{
    let q = QueryView { table_name: table, conditions: seq![], limit: None };
    assert(select_sql(q) =~= "SELECT * FROM "@ + table);
}

/// The SQL of an association's query: the row whose `column` equals the value, at most
/// one.
pub proof fn lemma_association_query_sql(table: Seq<char>, column: Seq<char>, v: Value)
    ensures
        select_sql(QueryView { table_name: table, conditions: seq![(column, v)], limit: Some(1) })
            == "SELECT * FROM "@ + table + " WHERE "@ + column + " = "@ + value_sql(v) + " LIMIT "@ + "1"@,
{
    let q = QueryView { table_name: table, conditions: seq![(column, v)], limit: Some(1) };
    let parts = q.conditions.map_values(|c: (Seq<char>, Value)| condition_sql(c));
    assert(parts =~= seq![condition_sql((column, v))]);
    assert(join(parts, " AND "@) == parts[0]);
    assert(decimal(1) == "1"@);
    assert(select_sql(q) =~= "SELECT * FROM "@ + table + " WHERE "@ + column + " = "@ + value_sql(v) + " LIMIT "@ + "1"@);
}

/// Setting a field of a record and then reading it gives the value set; reading another
/// field gives what it gave before.
pub proof fn lemma_set_then_get(fs: Seq<FieldValue>, attr: Seq<char>, other: Seq<char>, v: Option<Value>)
    requires
        field_index(fs, attr) is Some,
    ensures
        record_value(fs.update(field_index(fs, attr).unwrap(), FieldValue { attr_name: fs[field_index(fs, attr).unwrap()].attr_name, value: v }), attr) == v,
        other != attr ==> record_value(fs.update(field_index(fs, attr).unwrap(), FieldValue { attr_name: fs[field_index(fs, attr).unwrap()].attr_name, value: v }), other) == record_value(fs, other),
    decreases fs.len(),
{
    let k = field_index(fs, attr).unwrap();
    let updated = fs.update(k, FieldValue { attr_name: fs[k].attr_name, value: v });
    if fs[0].attr_name@ == attr {
        assert(k == 0);
        assert(updated.drop_first() =~= fs.drop_first());
    } else {
        let rest = fs.drop_first();
        lemma_set_then_get(rest, attr, other, v);
        lemma_field_index_bound(rest, attr);
        assert(k == field_index(rest, attr).unwrap() + 1);
        assert(updated.drop_first() =~= rest.update(k - 1, FieldValue { attr_name: rest[k - 1].attr_name, value: v }));
        assert(updated[0] == fs[0]);
    }
}

/// A field found is within the record.
pub proof fn lemma_field_index_bound(fs: Seq<FieldValue>, attr: Seq<char>)
    ensures
        field_index(fs, attr) matches Some(k) ==> 0 <= k < fs.len() && fs[k].attr_name@ == attr,
    decreases fs.len(),
{
    if fs.len() > 0 && fs[0].attr_name@ != attr {
        lemma_field_index_bound(fs.drop_first(), attr);
    }
}

/// A record without values reads no value in any field.
pub proof fn lemma_empty_record_reads_nothing(fs: Seq<FieldValue>, attr: Seq<char>)
    requires
        forall|i: int| 0 <= i < fs.len() ==> (#[trigger] fs[i]).value is None,
    ensures
        record_value(fs, attr) is None,
    decreases fs.len(),
{
    if fs.len() > 0 {
        assert(fs[0].value is None);
        let rest = fs.drop_first();
        assert forall|i: int| 0 <= i < rest.len() implies (#[trigger] rest[i]).value is None by {
            assert(rest[i] == fs[i + 1]);
        }
        lemma_empty_record_reads_nothing(rest, attr);
    }
}

/// Whether an entry is the pair `attr = "v"`.
pub open spec fn pair_at(n: NestedMeta, attr: Seq<char>, v: Seq<char>) -> bool {
    match n {
        NestedMeta::Meta(m) => meta_value(m, attr) == Some(v),
        NestedMeta::Lit(_) => false,
    }
}

/// A list of entries holds the pair `attr = "v"`.
pub open spec fn has_pair(g: Seq<NestedMeta>, attr: Seq<char>, v: Seq<char>) -> bool {
    exists|j: int| 0 <= j < g.len() && #[trigger] pair_at(g[j], attr, v)
}

/// A list of attribute items holds the pair `attr = "v"`.
pub open spec fn metas_have_pair(metas: Seq<Meta>, attr: Seq<char>, v: Seq<char>) -> bool {
    exists|j: int| 0 <= j < metas.len() && #[trigger] meta_value(metas[j], attr) == Some(v)
}

/// A value found in a list of entries is that of a pair in it.
pub proof fn lemma_group_value_sound(g: Seq<NestedMeta>, attr: Seq<char>)
    ensures
        group_value(g, attr) matches Some(v) ==> has_pair(g, attr, v),
    decreases g.len(),
{
    if g.len() > 0 {
        lemma_group_value_sound(g.drop_first(), attr);
        if let Some(v) = group_value(g, attr) {
            if pair_at(g[0], attr, v) {
            } else {
                assert(group_value(g.drop_first(), attr) == Some(v));
                let j = choose|j: int| 0 <= j < g.drop_first().len() && #[trigger] pair_at(g.drop_first()[j], attr, v);
                assert(g.drop_first()[j] == g[j + 1]);
                assert(pair_at(g[j + 1], attr, v));
            }
        }
    }
}

/// A value found group by group is that of a pair in one of the groups.
pub proof fn lemma_groups_lookup_sound(gs: Seq<Seq<NestedMeta>>, attr: Seq<char>, allow: Option<Seq<Seq<char>>>)
    ensures
        groups_lookup(gs, attr, allow) matches Ok(Some(v)) ==> exists|k: int| 0 <= k < gs.len() && has_pair(#[trigger] gs[k], attr, v),
    decreases gs.len(),
{
    if gs.len() > 0 {
        lemma_group_value_sound(gs[0], attr);
        lemma_groups_lookup_sound(gs.drop_first(), attr, allow);
        if let Ok(Some(v)) = groups_lookup(gs, attr, allow) {
            if group_value(gs[0], attr) is Some {
                assert(has_pair(gs[0], attr, v));
            } else {
                let k = choose|k: int| 0 <= k < gs.drop_first().len() && has_pair(#[trigger] gs.drop_first()[k], attr, v);
                assert(gs.drop_first()[k] == gs[k + 1]);
                assert(has_pair(gs[k + 1], attr, v));
            }
        }
    }
}

/// A value found item by item is that of a pair among the items.
pub proof fn lemma_metas_value_sound(metas: Seq<Meta>, attr: Seq<char>, allow: Option<Seq<Seq<char>>>)
    ensures
        metas_value(metas, attr, allow) matches Ok(Some(v)) ==> metas_have_pair(metas, attr, v),
    decreases metas.len(),
{
    if metas.len() > 0 {
        lemma_metas_value_sound(metas.drop_first(), attr, allow);
        if let Ok(Some(v)) = metas_value(metas, attr, allow) {
            if meta_value(metas[0], attr) == Some(v) {
            } else {
                let j = choose|j: int| 0 <= j < metas.drop_first().len() && #[trigger] meta_value(metas.drop_first()[j], attr) == Some(v);
                assert(metas.drop_first()[j] == metas[j + 1]);
                assert(meta_value(metas[j + 1], attr) == Some(v));
            }
        }
    }
}

/// Looking up a pair among attribute items is sound: a value found is that of a pair
/// `attr = "v"` among the items themselves (no namespace) or in the first group the
/// namespace reaches. Giving no namespace is the same as giving the empty one.
pub proof fn lemma_attr_value_sound(metas: Seq<Meta>, attr: Seq<char>, ns: Option<Seq<Seq<char>>>, allow: Option<Seq<Seq<char>>>)
    ensures
        attr_value(metas, attr, None, allow) == attr_value(metas, attr, Some(seq![]), allow),
        attr_value(metas, attr, ns, allow) matches Ok(Some(v)) ==> {
            if ns_or_empty(ns).len() == 0 {
                metas_have_pair(metas, attr, v)
            } else {
                metas_groups(metas, ns_or_empty(ns)).len() > 0 && has_pair(metas_groups(metas, ns_or_empty(ns))[0], attr, v)
            }
        },
{
    lemma_metas_value_sound(metas, attr, allow);
    let n = ns_or_empty(ns);
    if n.len() > 0 && metas_groups(metas, n).len() > 0 {
        let g0 = metas_groups(metas, n)[0];
        lemma_groups_lookup_sound(seq![g0], attr, allow);
        if let Ok(Some(v)) = attr_value(metas, attr, ns, allow) {
            assert(seq![g0][0] == g0);
        }
    }
}

/// Looking up a pair in a list of entries is sound: a value found is that of a pair
/// `attr = "v"` in one of the groups the namespace reaches (the list itself for no
/// namespace). Giving no namespace is the same as giving the empty one.
pub proof fn lemma_nested_attr_value_sound(nested: Seq<NestedMeta>, attr: Seq<char>, ns: Option<Seq<Seq<char>>>, allow: Option<Seq<Seq<char>>>)
    ensures
        nested_attr_value(nested, attr, None, allow) == nested_attr_value(nested, attr, Some(seq![]), allow),
        nested_attr_value(nested, attr, ns, allow) matches Ok(Some(v)) ==> exists|k: int|
            0 <= k < nested_groups(nested, ns_or_empty(ns)).len() && has_pair(#[trigger] nested_groups(nested, ns_or_empty(ns))[k], attr, v),
{
    lemma_groups_lookup_sound(nested_groups(nested, ns_or_empty(ns)), attr, allow);
}

/// A `belongs_to` entry list that declares an association gives one with the list's
/// leading name, the struct it names, and the foreign key it names; without a named
/// foreign key, the snake-case form of the associated struct's name followed by `_id`.
pub proof fn lemma_belongs_to_declared(g: Seq<NestedMeta>)
    requires
        belongs_to_of(g) matches Outcome::Value(Some(_)),
    ensures
        ({
            let a = belongs_to_of(g)->Value_0.unwrap();
            &&& g.len() > 0
            &&& g[0] matches NestedMeta::Lit(Lit::Str(s)) && s@ == a.name
            &&& a.kind == AssociationKind::BelongsTo
            &&& group_value(g, "struct"@) == Some(a.struct_name)
            &&& group_value(g, "foreign_key"@) matches Some(k) ==> a.foreign_key == k
            &&& group_value(g, "foreign_key"@) is None ==> a.foreign_key == foreign_key_of(snake_case(a.struct_name))
        }),
{
}

/// A `belongs_to` entry list with a leading name but no `struct` is an error; one without
/// a leading name declares nothing.
pub proof fn lemma_belongs_to_undeclared(g: Seq<NestedMeta>)
    requires
        g.len() > 0,
    ensures
        !(g[0] matches NestedMeta::Lit(Lit::Str(_))) ==> belongs_to_of(g) == Outcome::<Option<AssociationView>>::Value(None),
        g[0] matches NestedMeta::Lit(Lit::Str(_)) && group_value(g, "struct"@) is None ==> belongs_to_of(g) is Error,
{
}

/// A `has_one` entry list that declares an association gives one with the list's leading
/// name, the struct it names (the other model, which holds the key), and the foreign key
/// it names; without a named foreign key, the snake-case form of this struct's name
/// followed by `_id`.
pub proof fn lemma_has_one_declared(g: Seq<NestedMeta>, self_name: Seq<char>)
    requires
        has_one_of(g, self_name) matches Outcome::Value(Some(_)),
    ensures
        ({
            let a = has_one_of(g, self_name)->Value_0.unwrap();
            &&& g.len() > 0
            &&& g[0] matches NestedMeta::Lit(Lit::Str(s)) && s@ == a.name
            &&& a.kind == AssociationKind::HasOne
            &&& group_value(g, "struct"@) == Some(a.struct_name)
            &&& group_value(g, "foreign_key"@) matches Some(k) ==> a.foreign_key == k
            &&& group_value(g, "foreign_key"@) is None ==> a.foreign_key == foreign_key_of(snake_case(self_name))
        }),
{
}

/// An association through other models has the list's leading name and the struct it
/// names, at least one join, and its last struct is the struct of its last join.
pub proof fn lemma_through_declared(g: Seq<NestedMeta>, all: Seq<Seq<NestedMeta>>, self_name: Seq<char>)
    requires
        through_of(g, all, self_name) matches Outcome::Value(Some(_)),
    ensures
        ({
            let t = through_of(g, all, self_name)->Value_0.unwrap();
            &&& g.len() > 0
            &&& g[0] matches NestedMeta::Lit(Lit::Str(s)) && s@ == t.name
            &&& group_value(g, "struct"@) == Some(t.struct_name)
            &&& group_value(g, "through"@) is Some
            &&& t.steps.len() > 0
            &&& t.steps.last().struct_name == t.last_struct_name
        }),
{
    let name = first_name(g)->Value_0.unwrap();
    let tn = group_value(g, "through"@).unwrap();
    let chain = through_chain(all, tn, all.len() as nat)->Value_0;
    lemma_through_steps_last(chain, value_or(group_value(g, "source"@), name), self_name);
}

/// The joins of a chain end with a last struct exactly when there is a join, and the last
/// struct is that of the last join.
pub proof fn lemma_through_steps_last(chain: Seq<Seq<NestedMeta>>, in_name: Seq<char>, self_name: Seq<char>)
    ensures
        through_steps(chain, in_name, self_name) matches Outcome::Value((steps, last)) ==> (
            (last is Some <==> steps.len() > 0)
            && (last matches Some(l) ==> steps.last().struct_name == l.0)
        ),
    decreases chain.len(),
{
    if chain.len() > 0 {
        match through_item(chain[0], self_name) {
            Outcome::Value(None) => {
                lemma_through_steps_last(chain.drop_first(), in_name, self_name);
            },
            Outcome::Value(Some((st, fk, src))) => {
                lemma_through_steps_last(chain.drop_first(), src, self_name);
                match through_steps(chain.drop_first(), src, self_name) {
                    Outcome::Value((steps, last)) => {
                        let all_steps = seq![ThroughStepView { struct_name: st, association_name: in_name }] + steps;
                        assert(all_steps.last() == if steps.len() > 0 { steps.last() } else { all_steps[0] });
                    },
                    _ => {},
                }
            },
            _ => {},
        }
    }
}

/// The first association named `name`, over a sequence.
proof fn lemma_find_association(assocs: Seq<AssociationView>, name: Seq<char>)
    ensures
        find_association(assocs, name) matches Some(i) ==> 0 <= i < assocs.len() && assocs[i].name == name
            && forall|j: int| 0 <= j < i ==> assocs[j].name != name,
        find_association(assocs, name) is None <==> forall|j: int| 0 <= j < assocs.len() ==> assocs[j].name != name,
    decreases assocs.len(),
{
    if assocs.len() > 0 {
        let rest = assocs.drop_first();
        lemma_find_association(rest, name);
        assert forall|j: int| 0 < j < assocs.len() implies assocs[j] == rest[j - 1] by {}
        if find_association(assocs, name) is None {
            assert forall|j: int| 0 <= j < assocs.len() implies assocs[j].name != name by {
                if j > 0 {
                    assert(assocs[j] == rest[j - 1]);
                }
            }
        }
    }
}

/// The association found for a name carries that name and is the first with it; none is
/// found exactly when no association has the name.
pub proof fn lemma_association_named(m: ModelView, name: Seq<char>)
    ensures
        association_named(m, name) matches Some(a) ==> a.name == name && exists|i: int|
            0 <= i < m.associations.len() && m.associations[i] == a
            && forall|j: int| 0 <= j < i ==> m.associations[j].name != name,
        association_named(m, name) is None <==> forall|j: int| 0 <= j < m.associations.len() ==> m.associations[j].name != name,
{
    lemma_find_association(m.associations, name);
}

/// The first association through other models named `name`, over a sequence.
proof fn lemma_find_through(ts: Seq<ThroughView>, name: Seq<char>)
    ensures
        find_through(ts, name) matches Some(i) ==> 0 <= i < ts.len() && ts[i].name == name
            && forall|j: int| 0 <= j < i ==> ts[j].name != name,
        find_through(ts, name) is None <==> forall|j: int| 0 <= j < ts.len() ==> ts[j].name != name,
    decreases ts.len(),
{
    if ts.len() > 0 {
        let rest = ts.drop_first();
        lemma_find_through(rest, name);
        assert forall|j: int| 0 < j < ts.len() implies ts[j] == rest[j - 1] by {}
        if find_through(ts, name) is None {
            assert forall|j: int| 0 <= j < ts.len() implies ts[j].name != name by {
                if j > 0 {
                    assert(ts[j] == rest[j - 1]);
                }
            }
        }
    }
}

/// The association through other models found for a name carries that name and is the
/// first with it; none is found exactly when none has the name.
pub proof fn lemma_through_named(m: ModelView, name: Seq<char>)
    ensures
        through_named(m, name) matches Some(t) ==> t.name == name && exists|i: int|
            0 <= i < m.through_associations.len() && m.through_associations[i] == t
            && forall|j: int| 0 <= j < i ==> m.through_associations[j].name != name,
        through_named(m, name) is None <==> forall|j: int| 0 <= j < m.through_associations.len() ==> m.through_associations[j].name != name,
{
    lemma_find_through(m.through_associations, name);
}

/// Joining puts the separator between every two consecutive parts: nothing for no part,
/// the part itself for one, and one more part adds the separator and that part.
pub proof fn lemma_join(parts: Seq<Seq<char>>, sep: Seq<char>, p: Seq<char>)
    ensures
        join(seq![], sep) == Seq::<char>::empty(),
        join(seq![p], sep) == p,
        parts.len() >= 1 ==> join(parts.push(p), sep) == join(parts, sep) + sep + p,
{
    assert(seq![p].len() == 1);
    if parts.len() >= 1 {
        assert(parts.push(p).drop_last() =~= parts);
    }
}

/// A limit is written last, after everything else: the SQL of a query with limit `n` is
/// the SQL of the same query without a limit followed by ` LIMIT ` and `n` in decimal.
pub proof fn lemma_limit_written_last(q: QueryView, n: u64)
    ensures
        select_sql(QueryView { limit: Some(n), ..q }) == select_sql(QueryView { limit: None, ..q }) + " LIMIT "@ + decimal(n as nat),
{
    let a = QueryView { limit: Some(n), ..q };
    let b = QueryView { limit: None, ..q };
    assert(select_sql(b) =~= select_sql(b) + Seq::<char>::empty());
    assert(select_sql(a) =~= select_sql(b) + " LIMIT "@ + decimal(n as nat));
}

/// Conditions come after the table, the first after ` WHERE `, each further one after
/// ` AND `, each written `column = value`.
pub proof fn lemma_conditions_written_in_order(q: QueryView, column: Seq<char>, v: Value)
    ensures
        q.conditions.len() == 0 ==> select_sql(QueryView { limit: None, ..q }) == "SELECT * FROM "@ + q.table_name,
        q.conditions.len() == 0 ==> select_sql(QueryView { conditions: q.conditions.push((column, v)), limit: None, ..q })
            == select_sql(QueryView { limit: None, ..q }) + " WHERE "@ + column + " = "@ + value_sql(v),
        q.conditions.len() > 0 ==> select_sql(QueryView { conditions: q.conditions.push((column, v)), limit: None, ..q })
            == select_sql(QueryView { limit: None, ..q }) + " AND "@ + column + " = "@ + value_sql(v),
{
    let b = QueryView { limit: None, ..q };
    let c = QueryView { conditions: q.conditions.push((column, v)), limit: None, ..q };
    let f = |x: (Seq<char>, Value)| condition_sql(x);
    assert(c.conditions.map_values(f) =~= b.conditions.map_values(f).push(condition_sql((column, v))));
    if q.conditions.len() == 0 {
        assert(b.conditions.map_values(f) =~= Seq::<Seq<char>>::empty());
        assert(c.conditions.map_values(f) =~= seq![condition_sql((column, v))]);
        lemma_join(Seq::<Seq<char>>::empty(), " AND "@, condition_sql((column, v)));
        assert(select_sql(b) =~= "SELECT * FROM "@ + q.table_name);
        assert(select_sql(c) =~= select_sql(b) + " WHERE "@ + column + " = "@ + value_sql(v));
    } else {
        lemma_join(b.conditions.map_values(f), " AND "@, condition_sql((column, v)));
        assert(select_sql(c) =~= select_sql(b) + " AND "@ + column + " = "@ + value_sql(v));
    }
}


/// Every association of a sequence of `belongs_to(...)` lists is the one that some list
/// declares, and every list that declares an association contributes it.
pub proof fn lemma_belongs_to_all_declared(gs: Seq<Seq<NestedMeta>>)
    ensures
        belongs_to_all(gs) matches Outcome::Value(v) ==> (
            (forall|i: int| #![trigger v[i]] 0 <= i < v.len() ==> exists|k: int|
                0 <= k < gs.len() && #[trigger] belongs_to_of(gs[k]) == Outcome::Value(Some(v[i])))
            && (forall|k: int| 0 <= k < gs.len() ==> (#[trigger] belongs_to_of(gs[k]) matches Outcome::Value(Some(a)) ==> v.contains(a)))
        ),
    decreases gs.len(),
{
    if gs.len() > 0 {
        let pre = gs.drop_last();
        lemma_belongs_to_all_declared(pre);
        assert forall|k: int| 0 <= k < pre.len() implies pre[k] == gs[k] by {}
        assert(gs[gs.len() - 1] == gs.last());
        match belongs_to_all(pre) {
            Outcome::Value(w) => {
                let v = match belongs_to_of(gs.last()) {
                    Outcome::Value(Some(a)) => w.push(a),
                    _ => w,
                };
                if belongs_to_all(gs) is Value {
                    assert(belongs_to_all(gs) == Outcome::<Seq<AssociationView>>::Value(v));
                    assert forall|i: int| #![trigger v[i]] 0 <= i < v.len() implies exists|k: int|
                        0 <= k < gs.len() && #[trigger] belongs_to_of(gs[k]) == Outcome::Value(Some(v[i])) by {
                        if i < w.len() {
                            let k = choose|k: int| 0 <= k < pre.len() && #[trigger] belongs_to_of(pre[k]) == Outcome::Value(Some(w[i]));
                            assert(v[i] == w[i]);
                            assert(belongs_to_of(gs[k]) == Outcome::Value(Some(v[i])));
                        } else {
                            assert(belongs_to_of(gs[gs.len() - 1]) == Outcome::Value(Some(v[i])));
                        }
                    }
                    assert forall|k: int| 0 <= k < gs.len() implies (#[trigger] belongs_to_of(gs[k]) matches Outcome::Value(Some(a)) ==> v.contains(a)) by {
                        match belongs_to_of(gs[k]) {
                            Outcome::Value(Some(a)) => {
                                if k < pre.len() {
                                    assert(belongs_to_of(pre[k]) == belongs_to_of(gs[k]));
                                    assert(w.contains(a));
                                    let j = choose|j: int| 0 <= j < w.len() && w[j] == a;
                                    assert(v[j] == a);
                                } else {
                                    assert(v[w.len() as int] == a);
                                }
                            },
                            _ => {},
                        }
                    }
                }
            },
            _ => {},
        }
    }
}


/// Every plain association of a sequence of `has_one(...)` lists is the one that some list
/// declares without a chain, every association through other models is the one that some
/// list declares with a chain, and every list contributes what it declares.
pub proof fn lemma_has_one_all_declared(gs: Seq<Seq<NestedMeta>>, all: Seq<Seq<NestedMeta>>, self_name: Seq<char>)
    ensures
        has_one_all(gs, all, self_name) matches Outcome::Value((ps, ts)) ==> (
            (forall|i: int| #![trigger ps[i]] 0 <= i < ps.len() ==> exists|k: int|
                0 <= k < gs.len() && #[trigger] through_of(gs[k], all, self_name) == Outcome::<Option<ThroughView>>::Value(None)
                && has_one_of(gs[k], self_name) == Outcome::Value(Some(ps[i])))
            && (forall|i: int| #![trigger ts[i]] 0 <= i < ts.len() ==> exists|k: int|
                0 <= k < gs.len() && #[trigger] through_of(gs[k], all, self_name) == Outcome::Value(Some(ts[i])))
            && (forall|k: int| 0 <= k < gs.len() ==> (#[trigger] through_of(gs[k], all, self_name) matches Outcome::Value(Some(t)) ==> ts.contains(t)))
            && (forall|k: int| 0 <= k < gs.len() ==> (#[trigger] through_of(gs[k], all, self_name) == Outcome::<Option<ThroughView>>::Value(None)
                ==> (has_one_of(gs[k], self_name) matches Outcome::Value(Some(a)) ==> ps.contains(a))))
        ),
    decreases gs.len(),
{
    if gs.len() > 0 {
        let pre = gs.drop_last();
        let g = gs.last();
        lemma_has_one_all_declared(pre, all, self_name);
        assert forall|k: int| 0 <= k < pre.len() implies pre[k] == gs[k] by {}
        assert(gs[gs.len() - 1] == g);
        match has_one_all(pre, all, self_name) {
            Outcome::Value((ps0, ts0)) => {
                if has_one_all(gs, all, self_name) is Value {
                    let (ps, ts) = has_one_all(gs, all, self_name)->Value_0;
                    assert(ps0.is_prefix_of(ps) && ts0.is_prefix_of(ts));
                    assert(ps.len() <= ps0.len() + 1 && ts.len() <= ts0.len() + 1);
                    assert(ps.len() == ps0.len() + 1 ==> through_of(g, all, self_name) == Outcome::<Option<ThroughView>>::Value(None)
                        && has_one_of(g, self_name) == Outcome::Value(Some(ps.last())));
                    assert(ts.len() == ts0.len() + 1 ==> through_of(g, all, self_name) == Outcome::Value(Some(ts.last())));
                    assert forall|i: int| #![trigger ps[i]] 0 <= i < ps.len() implies exists|k: int|
                        0 <= k < gs.len() && #[trigger] through_of(gs[k], all, self_name) == Outcome::<Option<ThroughView>>::Value(None)
                        && has_one_of(gs[k], self_name) == Outcome::Value(Some(ps[i])) by {
                        if i < ps0.len() {
                            assert(ps[i] == ps0[i]);
                            let k = choose|k: int| 0 <= k < pre.len() && #[trigger] through_of(pre[k], all, self_name) == Outcome::<Option<ThroughView>>::Value(None)
                                && has_one_of(pre[k], self_name) == Outcome::Value(Some(ps0[i]));
                            assert(through_of(gs[k], all, self_name) == Outcome::<Option<ThroughView>>::Value(None));
                        } else {
                            assert(through_of(gs[gs.len() - 1], all, self_name) == Outcome::<Option<ThroughView>>::Value(None));
                        }
                    }
                    assert forall|i: int| #![trigger ts[i]] 0 <= i < ts.len() implies exists|k: int|
                        0 <= k < gs.len() && #[trigger] through_of(gs[k], all, self_name) == Outcome::Value(Some(ts[i])) by {
                        if i < ts0.len() {
                            assert(ts[i] == ts0[i]);
                            let k = choose|k: int| 0 <= k < pre.len() && #[trigger] through_of(pre[k], all, self_name) == Outcome::Value(Some(ts0[i]));
                            assert(through_of(gs[k], all, self_name) == Outcome::Value(Some(ts[i])));
                        } else {
                            assert(through_of(gs[gs.len() - 1], all, self_name) == Outcome::Value(Some(ts[i])));
                        }
                    }
                    assert forall|k: int| 0 <= k < gs.len() implies (#[trigger] through_of(gs[k], all, self_name) matches Outcome::Value(Some(t)) ==> ts.contains(t)) by {
                        match through_of(gs[k], all, self_name) {
                            Outcome::Value(Some(t)) => {
                                if k < pre.len() {
                                    assert(through_of(pre[k], all, self_name) == through_of(gs[k], all, self_name));
                                    let j = choose|j: int| 0 <= j < ts0.len() && ts0[j] == t;
                                    assert(ts[j] == t);
                                } else {
                                    assert(ts[ts0.len() as int] == t);
                                }
                            },
                            _ => {},
                        }
                    }
                    assert forall|k: int| 0 <= k < gs.len() && #[trigger] through_of(gs[k], all, self_name) == Outcome::<Option<ThroughView>>::Value(None)
                        implies (has_one_of(gs[k], self_name) matches Outcome::Value(Some(a)) ==> ps.contains(a)) by {
                        {
                            match has_one_of(gs[k], self_name) {
                                Outcome::Value(Some(a)) => {
                                    if k < pre.len() {
                                        assert(through_of(pre[k], all, self_name) == through_of(gs[k], all, self_name));
                                        let j = choose|j: int| 0 <= j < ps0.len() && ps0[j] == a;
                                        assert(ps[j] == a);
                                    } else {
                                        assert(ps[ps0.len() as int] == a);
                                    }
                                },
                                _ => {},
                            }
                        }
                    }
                }
            },
            _ => {},
        }
    }
}


/// The associations of an expanded model are exactly those that its `belongs_to(...)` and
/// `has_one(...)` lists declare: each one comes from a list (a `has_one` list without a
/// chain for a plain association, with one for an association through other models), and
/// each list's association is there.
pub proof fn lemma_expanded_associations_declared(d: DeriveInput, args: Seq<NestedMeta>)
    requires
        expand(d, args) is Value,
    ensures
        ({
            let m = expand(d, args)->Value_0;
            let bg = belongs_to_groups(d, args);
            let hg = has_one_groups(d, args);
            &&& forall|i: int| #![trigger m.associations[i]] 0 <= i < m.associations.len() ==> (
                (exists|k: int| 0 <= k < bg.len() && #[trigger] belongs_to_of(bg[k]) == Outcome::Value(Some(m.associations[i])))
                || (exists|k: int| 0 <= k < hg.len() && #[trigger] through_of(hg[k], hg, d.ident@) == Outcome::<Option<ThroughView>>::Value(None)
                    && has_one_of(hg[k], d.ident@) == Outcome::Value(Some(m.associations[i]))))
            &&& forall|i: int| #![trigger m.through_associations[i]] 0 <= i < m.through_associations.len() ==> exists|k: int|
                0 <= k < hg.len() && #[trigger] through_of(hg[k], hg, d.ident@) == Outcome::Value(Some(m.through_associations[i]))
            &&& forall|k: int| 0 <= k < bg.len() ==> (#[trigger] belongs_to_of(bg[k]) matches Outcome::Value(Some(a)) ==> m.associations.contains(a))
            &&& forall|k: int| 0 <= k < hg.len() ==> (#[trigger] through_of(hg[k], hg, d.ident@) matches Outcome::Value(Some(t)) ==> m.through_associations.contains(t))
            &&& forall|k: int| 0 <= k < hg.len() ==> (#[trigger] through_of(hg[k], hg, d.ident@) == Outcome::<Option<ThroughView>>::Value(None)
                ==> (has_one_of(hg[k], d.ident@) matches Outcome::Value(Some(a)) ==> m.associations.contains(a)))
        }),
{
    let m = expand(d, args)->Value_0;
    let bg = belongs_to_groups(d, args);
    let hg = has_one_groups(d, args);
    lemma_belongs_to_all_declared(bg);
    lemma_has_one_all_declared(hg, hg, d.ident@);
    let bt = belongs_to_all(bg)->Value_0;
    let (ho, th) = has_one_all(hg, hg, d.ident@)->Value_0;
    assert(m.associations == bt + ho);
    assert(m.through_associations == th);
    assert forall|i: int| #![trigger m.associations[i]] 0 <= i < m.associations.len() implies (
        (exists|k: int| 0 <= k < bg.len() && #[trigger] belongs_to_of(bg[k]) == Outcome::Value(Some(m.associations[i])))
        || (exists|k: int| 0 <= k < hg.len() && #[trigger] through_of(hg[k], hg, d.ident@) == Outcome::<Option<ThroughView>>::Value(None)
            && has_one_of(hg[k], d.ident@) == Outcome::Value(Some(m.associations[i])))) by {
        if i < bt.len() {
            assert(m.associations[i] == bt[i]);
        } else {
            assert(m.associations[i] == ho[i - bt.len()]);
        }
    }
    assert forall|k: int| 0 <= k < bg.len() implies (#[trigger] belongs_to_of(bg[k]) matches Outcome::Value(Some(a)) ==> m.associations.contains(a)) by {
        match belongs_to_of(bg[k]) {
            Outcome::Value(Some(a)) => {
                let j = choose|j: int| 0 <= j < bt.len() && bt[j] == a;
                assert(m.associations[j] == a);
            },
            _ => {},
        }
    }
    assert forall|k: int| 0 <= k < hg.len() && #[trigger] through_of(hg[k], hg, d.ident@) == Outcome::<Option<ThroughView>>::Value(None)
        implies (has_one_of(hg[k], d.ident@) matches Outcome::Value(Some(a)) ==> m.associations.contains(a)) by {
        {
            match has_one_of(hg[k], d.ident@) {
                Outcome::Value(Some(a)) => {
                    let j = choose|j: int| 0 <= j < ho.len() && ho[j] == a;
                    assert(m.associations[bt.len() + j] == a);
                },
                _ => {},
            }
        }
    }
}


/// The number that a text of decimal digits reads as.
pub open spec fn digits_value(s: Seq<char>) -> int
    decreases s.len(),
{
    if s.len() == 0 {
        0
    } else {
        digits_value(s.drop_last()) * 10 + (s.last() as int - '0' as int)
    }
}

/// The text of a digit is that one digit.
proof fn lemma_digit_text(d: nat)
    requires
        d < 10,
    ensures
        digit_text(d).len() == 1,
        digit_text(d)[0] as int == '0' as int + d,
{
    reveal_strlit("0");
    reveal_strlit("1");
    reveal_strlit("2");
    reveal_strlit("3");
    reveal_strlit("4");
    reveal_strlit("5");
    reveal_strlit("6");
    reveal_strlit("7");
    reveal_strlit("8");
    reveal_strlit("9");
}

/// The decimal text of a number is made of digits, starts with a digit other than `0`
/// unless the number is 0, and reads back as the number.
pub proof fn lemma_decimal_reads_back(n: nat)
    ensures
        decimal(n).len() >= 1,
        forall|i: int| 0 <= i < decimal(n).len() ==> '0' <= #[trigger] decimal(n)[i] <= '9',
        n > 0 ==> decimal(n)[0] != '0',
        digits_value(decimal(n)) == n,
    decreases n,
{
    if n < 10 {
        lemma_digit_text(n);
        let s = decimal(n);
        assert(s.drop_last() =~= Seq::<char>::empty());
        assert(digits_value(s.drop_last()) == 0);
        assert(s.last() == s[0]);
        assert(digits_value(s) == digits_value(s.drop_last()) * 10 + (s.last() as int - '0' as int));
    } else {
        let q = n / 10;
        let r = n % 10;
        lemma_decimal_reads_back(q);
        lemma_digit_text(r);
        let s = decimal(n);
        assert(s == decimal(q) + digit_text(r));
        assert(s.drop_last() =~= decimal(q));
        assert(s.last() == digit_text(r)[0]);
        assert(s[0] == decimal(q)[0]);
        assert(n == q * 10 + r);
        assert(digits_value(s) == digits_value(s.drop_last()) * 10 + (s.last() as int - '0' as int));
        assert forall|i: int| 0 <= i < s.len() implies '0' <= #[trigger] s[i] <= '9' by {
            if i < decimal(q).len() {
                assert(s[i] == decimal(q)[i]);
            }
        }
    }
}

/// Escaping a concatenation escapes each part: escaping works character by character.
pub proof fn lemma_escaped_concat(a: Seq<char>, b: Seq<char>)
    ensures
        escaped(a + b) == escaped(a) + escaped(b),
    decreases b.len(),
{
    if b.len() == 0 {
        assert(a + b =~= a);
        assert(escaped(a) + escaped(b) =~= escaped(a));
    } else {
        lemma_escaped_concat(a, b.drop_last());
        assert((a + b).drop_last() =~= a + b.drop_last());
        assert((a + b).last() == b.last());
        assert(escaped(a + b) =~= escaped(a) + escaped(b));
    }
}

/// A text without single quotes is left as it is; a single quote is doubled.
pub proof fn lemma_escaped_quotes(s: Seq<char>)
    ensures
        (forall|i: int| 0 <= i < s.len() ==> s[i] != '\'') ==> escaped(s) == s,
        escaped(seq!['\'']) == seq!['\'', '\''],
    decreases s.len(),
{
    let one = seq!['\''];
    assert(one.len() == 1 && one.last() == '\'');
    assert(one.drop_last() =~= Seq::<char>::empty());
    assert(escaped(one.drop_last()) =~= Seq::<char>::empty());
    assert(escaped(one) =~= seq!['\'', '\'']);
    if s.len() > 0 {
        lemma_escaped_quotes(s.drop_last());
        if forall|i: int| 0 <= i < s.len() ==> s[i] != '\'' {
            assert(forall|i: int| 0 <= i < s.drop_last().len() ==> s.drop_last()[i] == s[i]);
            assert(s.last() == s[s.len() - 1]);
            assert(escaped(s) =~= s.drop_last() + seq![s.last()]);
            assert(s.drop_last() + seq![s.last()] =~= s);
        }
    }
}

/// A signed value is written as the unsigned value of its magnitude, after `-` when it
/// is negative.
pub proof fn lemma_signed_value_sql(i: i64)
    ensures
        i >= 0 ==> value_sql(Value::Int(i)) == value_sql(Value::UInt(i as u64)),
        i < 0 ==> value_sql(Value::Int(i)) == "-"@ + value_sql(Value::UInt((-i) as u64)),
{
}

/// Reading a field of a record gives the value of the first field with that name, or
/// nothing when no field has it.
pub proof fn lemma_record_value_first_field(fs: Seq<FieldValue>, attr: Seq<char>)
    ensures
        field_index(fs, attr) matches Some(k) ==> 0 <= k < fs.len() && fs[k].attr_name@ == attr
            && (forall|j: int| 0 <= j < k ==> fs[j].attr_name@ != attr)
            && record_value(fs, attr) == fs[k].value,
        field_index(fs, attr) is None <==> (forall|j: int| 0 <= j < fs.len() ==> fs[j].attr_name@ != attr),
        field_index(fs, attr) is None ==> record_value(fs, attr) is None,
    decreases fs.len(),
{
    if fs.len() > 0 {
        let rest = fs.drop_first();
        lemma_record_value_first_field(rest, attr);
        assert forall|j: int| 0 < j < fs.len() implies fs[j] == rest[j - 1] by {}
        if field_index(fs, attr) is None {
            assert forall|j: int| 0 <= j < fs.len() implies fs[j].attr_name@ != attr by {
                if j > 0 {
                    assert(fs[j] == rest[j - 1]);
                }
            }
        }
    }
}


/// A field keeps its own name as its field name; its column is the `table_column_name`
/// pair of its first `orm(...)` attribute when that attribute holds one, and otherwise its
/// own name.
pub proof fn lemma_field_column(f: Field)
    ensures
        column_of(f).attr_name == f.ident@,
        ({
            let gs = metas_groups(f.attrs@, seq!["orm"@]);
            &&& gs.len() > 0 ==> (group_value(gs[0], "table_column_name"@) matches Some(c) ==> column_of(f).column_name == c)
            &&& (gs.len() == 0 || group_value(gs[0], "table_column_name"@) is None) ==> column_of(f).column_name == f.ident@
        }),
{
    let ns = seq!["orm"@];
    assert(ns_or_empty(Some(ns)) == ns);
    assert(ns.len() == 1);
    let gs = metas_groups(f.attrs@, ns);
    if gs.len() > 0 {
        let one = seq![gs[0]];
        assert(one[0] == gs[0]);
        assert(one.drop_first() =~= Seq::<Seq<NestedMeta>>::empty());
        assert(group_allowed(gs[0], None));
        assert(groups_lookup(one.drop_first(), "table_column_name"@, None) == Ok::<Option<Seq<char>>, Seq<char>>(None));
        assert(groups_lookup(one, "table_column_name"@, None) == Ok::<Option<Seq<char>>, Seq<char>>(group_value(gs[0], "table_column_name"@)));
    }
}

} // verus!
