//! A model at run time: its table, columns and key, the lookups between field and column
//! names, the rows that it reads into records, and the queries and joins of its
//! associations.
use vstd::prelude::*;
use vstd::string::*;
use crate::error::{SqlError, sql_error_message};
use crate::helper::names_view;
use crate::model::{OrmModel, ModelView, ColumnView, AssociationView, AssociationKind, ThroughView};
use crate::query::{Value, SelectQuery, QueryView, join};

verus! {

/// The column of the first column entry for the field `attr`.
pub open spec fn column_for_attr(cols: Seq<ColumnView>, attr: Seq<char>) -> Option<Seq<char>>
    decreases cols.len(),
{
    if cols.len() == 0 {
        None
    } else if cols[0].attr_name == attr {
        Some(cols[0].column_name)
    } else {
        column_for_attr(cols.drop_first(), attr)
    }
}

/// The field of the first column entry stored in the column `column`.
pub open spec fn attr_for_column(cols: Seq<ColumnView>, column: Seq<char>) -> Option<Seq<char>>
    decreases cols.len(),
{
    if cols.len() == 0 {
        None
    } else if cols[0].column_name == column {
        Some(cols[0].attr_name)
    } else {
        attr_for_column(cols.drop_first(), column)
    }
}

/// The message of a failed lookup of the name `name`, after the lookup's `prefix`.
pub open spec fn not_found_message(prefix: Seq<char>, name: Seq<char>) -> Seq<char> {
    prefix + name + " Not Found"@
}

/// The view of a lookup result.
pub open spec fn name_result(r: Result<String, SqlError>) -> Result<Seq<char>, Seq<char>> {
    match r {
        Ok(s) => Ok(s@),
        Err(e) => Err(sql_error_message(e)),
    }
}

/// The column names of a model, in field order.
pub open spec fn column_names(m: ModelView) -> Seq<Seq<char>> {
    m.columns.map_values(|c: ColumnView| c.column_name)
}

/// The field names of a model, in field order.
pub open spec fn attr_names_of(m: ModelView) -> Seq<Seq<char>> {
    m.columns.map_values(|c: ColumnView| c.attr_name)
}

/// The index of the first association named `name`.
pub open spec fn find_association(assocs: Seq<AssociationView>, name: Seq<char>) -> Option<int>
    decreases assocs.len(),
{
    if assocs.len() == 0 {
        None
    } else if assocs[0].name == name {
        Some(0)
    } else {
        match find_association(assocs.drop_first(), name) {
            Some(j) => Some(j + 1),
            None => None,
        }
    }
}

/// The index of the first association through other models named `name`.
pub open spec fn find_through(ts: Seq<ThroughView>, name: Seq<char>) -> Option<int>
    decreases ts.len(),
{
    if ts.len() == 0 {
        None
    } else if ts[0].name == name {
        Some(0)
    } else {
        match find_through(ts.drop_first(), name) {
            Some(j) => Some(j + 1),
            None => None,
        }
    }
}

/// The value of a field of a record.
pub struct FieldValue {
    pub attr_name: String,
    pub value: Option<Value>,
}

/// A record of a model: each field's value.
pub struct Record {
    pub fields: Vec<FieldValue>,
}

/// The value of the first field named `attr` (none when it has none or there is none).
pub open spec fn record_value(fs: Seq<FieldValue>, attr: Seq<char>) -> Option<Value>
    decreases fs.len(),
{
    if fs.len() == 0 {
        None
    } else if fs[0].attr_name@ == attr {
        fs[0].value
    } else {
        record_value(fs.drop_first(), attr)
    }
}

/// The index of the first field named `attr`.
pub open spec fn field_index(fs: Seq<FieldValue>, attr: Seq<char>) -> Option<int>
    decreases fs.len(),
{
    if fs.len() == 0 {
        None
    } else if fs[0].attr_name@ == attr {
        Some(0)
    } else {
        match field_index(fs.drop_first(), attr) {
            Some(j) => Some(j + 1),
            None => None,
        }
    }
}

impl Record {
    /// The value of the field `attr_name`: none when the field has none or the record
    /// has no such field.
    pub fn get_json_value_from_attr_name__(&self, attr_name: &str) -> (r: Option<Value>)
        ensures
            r == record_value(self.fields@, attr_name@),
    {
        let attr = String::from_str(attr_name);
        let mut i: usize = 0;
        assert(self.fields@.skip(0) =~= self.fields@);
        while i < self.fields.len()
            invariant
                0 <= i <= self.fields@.len(),
                attr@ == attr_name@,
                record_value(self.fields@, attr@) == record_value(self.fields@.skip(i as int), attr@),
            decreases self.fields@.len() - i,
        {
            assert(self.fields@.skip(i as int)[0] == self.fields@[i as int]);
            assert(self.fields@.skip(i as int).drop_first() =~= self.fields@.skip(i + 1));
            if self.fields[i].attr_name == attr {
                return match &self.fields[i].value {
                    Some(v) => Some(v.copy()),
                    None => None,
                };
            }
            i += 1;
        }
        None
    }

    /// Sets the value of the field `attr_name`; false, with nothing changed, when the
    /// record has no such field.
    pub fn set(&mut self, attr_name: &str, value: Option<Value>) -> (found: bool)
        ensures
            match field_index(old(self).fields@, attr_name@) {
                Some(k) => found && final(self).fields@ == old(self).fields@.update(
                    k,
                    FieldValue { attr_name: old(self).fields@[k].attr_name, value: value },
                ),
                None => !found && final(self).fields@ == old(self).fields@,
            },
    {
        let attr = String::from_str(attr_name);
        let ghost fs = self.fields@;
        let mut i: usize = 0;
        assert(fs.skip(0) =~= fs);
        while i < self.fields.len()
            invariant
                0 <= i <= self.fields@.len(),
                self.fields@ == fs,
                fs == old(self).fields@,
                attr@ == attr_name@,
                field_index(fs, attr@) == match field_index(fs.skip(i as int), attr@) {
                    Some(j) => Some(j + i),
                    None => None::<int>,
                },
            decreases self.fields@.len() - i,
        {
            assert(fs.skip(i as int)[0] == fs[i as int]);
            assert(fs.skip(i as int).drop_first() =~= fs.skip(i + 1));
            if self.fields[i].attr_name == attr {
                assert(fs.skip(i as int).len() > 0);
                assert(field_index(fs.skip(i as int), attr@) == Some(0int));
                assert(field_index(fs, attr@) == Some(i as int));
                let name = self.fields[i].attr_name.clone();
                self.fields.set(i, FieldValue { attr_name: name, value });
                return true;
            }
            i += 1;
        }
        assert(fs.skip(i as int) =~= Seq::<FieldValue>::empty());
        false
    }
}

/// A model's handle: its table, columns and key, and its associations.
pub struct Orm {
    model: OrmModel,
}

impl View for Orm {
    type V = ModelView;

    closed spec fn view(&self) -> ModelView {
        self.model@
    }
}

impl Orm {
    /// The handle of a model.
    pub fn default(model: OrmModel) -> (r: Self)
        ensures
            r@ == model@,
    {
        Orm { model }
    }

    /// The model's table.
    pub fn table_name(&self) -> (r: String)
        ensures
            r@ == self@.table_name,
    {
        self.model.table_name.clone()
    }

    /// The model's columns, in field order.
    pub fn table_column_names(&self) -> (r: Vec<String>)
        ensures
            names_view(r@) == column_names(self@),
    {
        let mut r: Vec<String> = Vec::new();
        let mut i: usize = 0;
        while i < self.model.columns.len()
            invariant
                0 <= i <= self.model.columns@.len(),
                self@ == self.model@,
                r@.len() == i,
                names_view(r@) == column_names(self@).take(i as int),
            decreases self.model.columns@.len() - i,
        {
            r.push(self.model.columns[i].column_name.clone());
            assert(r@[i as int]@ == self.model.columns@[i as int].column_name@);
            assert(names_view(r@) =~= column_names(self@).take(i + 1));
            i += 1;
        }
        assert(column_names(self@).take(i as int) =~= column_names(self@));
        r
    }

    /// The model's fields, in order.
    pub fn attr_names(&self) -> (r: Vec<String>)
        ensures
            names_view(r@) == attr_names_of(self@),
    {
        let mut r: Vec<String> = Vec::new();
        let mut i: usize = 0;
        while i < self.model.columns.len()
            invariant
                0 <= i <= self.model.columns@.len(),
                self@ == self.model@,
                r@.len() == i,
                names_view(r@) == attr_names_of(self@).take(i as int),
            decreases self.model.columns@.len() - i,
        {
            r.push(self.model.columns[i].attr_name.clone());
            assert(r@[i as int]@ == self.model.columns@[i as int].attr_name@);
            assert(names_view(r@) =~= attr_names_of(self@).take(i + 1));
            i += 1;
        }
        assert(attr_names_of(self@).take(i as int) =~= attr_names_of(self@));
        r
    }

    /// The column that stores the field `attr_name`; an error when the model has no
    /// such field.
    pub fn attr_name_to_table_column_name(&self, attr_name: &str) -> (r: Result<String, SqlError>)
        ensures
            name_result(r) == match column_for_attr(self@.columns, attr_name@) {
                Some(c) => Ok(c),
                None => Err(not_found_message("Error: attr_name_to_table_column_name: "@, attr_name@)),
            },
    {
        let attr = String::from_str(attr_name);
        let ghost cols = self@.columns;
        let mut i: usize = 0;
        assert(cols.skip(0) =~= cols);
        while i < self.model.columns.len()
            invariant
                0 <= i <= self.model.columns@.len(),
                self@ == self.model@,
                cols == self@.columns,
                attr@ == attr_name@,
                column_for_attr(cols, attr@) == column_for_attr(cols.skip(i as int), attr@),
            decreases self.model.columns@.len() - i,
        {
            assert(cols.skip(i as int)[0] == cols[i as int]);
            assert(cols.skip(i as int).drop_first() =~= cols.skip(i + 1));
            if self.model.columns[i].attr_name == attr {
                return Ok(self.model.columns[i].column_name.clone());
            }
            i += 1;
        }
        assert(cols.skip(i as int) =~= Seq::<ColumnView>::empty());
        let mut m = String::from_str("Error: attr_name_to_table_column_name: ");
        m.append(attr_name);
        m.append(" Not Found");
        Err(SqlError::Message(m))
    }

    /// The field stored in the column `table_column_name`; an error when the model has
    /// no such column.
    pub fn table_column_name_to_attr_name(&self, table_column_name: &str) -> (r: Result<String, SqlError>)
        ensures
            name_result(r) == match attr_for_column(self@.columns, table_column_name@) {
                Some(a) => Ok(a),
                None => Err(not_found_message("Error: table_column_name_to_attr_name: "@, table_column_name@)),
            },
    {
        let column = String::from_str(table_column_name);
        let ghost cols = self@.columns;
        let mut i: usize = 0;
        assert(cols.skip(0) =~= cols);
        while i < self.model.columns.len()
            invariant
                0 <= i <= self.model.columns@.len(),
                self@ == self.model@,
                cols == self@.columns,
                column@ == table_column_name@,
                attr_for_column(cols, column@) == attr_for_column(cols.skip(i as int), column@),
            decreases self.model.columns@.len() - i,
        {
            assert(cols.skip(i as int)[0] == cols[i as int]);
            assert(cols.skip(i as int).drop_first() =~= cols.skip(i + 1));
            if self.model.columns[i].column_name == column {
                return Ok(self.model.columns[i].attr_name.clone());
            }
            i += 1;
        }
        assert(cols.skip(i as int) =~= Seq::<ColumnView>::empty());
        let mut m = String::from_str("Error: table_column_name_to_attr_name: ");
        m.append(table_column_name);
        m.append(" Not Found");
        Err(SqlError::Message(m))
    }

    /// The model's primary key column.
    pub fn primary_key(&self) -> (r: String)
        ensures
            r@ == self@.primary_key,
    {
        self.model.primary_key.clone()
    }

    /// The column that identifies a row: the primary key.
    pub fn id(&self) -> (r: String)
        ensures
            r@ == self@.primary_key,
    {
        self.model.primary_key.clone()
    }

    /// A select of all rows of the model's table.
    pub fn query(&self) -> (r: SelectQuery)
        ensures
            r@ == (QueryView { table_name: self@.table_name, conditions: seq![], limit: None }),
    {
        SelectQuery::new(self.model.table_name.clone())
    }

    /// A record of the model with no value in any field.
    pub fn new_record(&self) -> (r: Record)
        ensures
            r.fields@.len() == self@.columns.len(),
            forall|i: int| 0 <= i < r.fields@.len() ==> (#[trigger] r.fields@[i]).attr_name@ == self@.columns[i].attr_name
                && r.fields@[i].value is None,
    {
        let mut fields: Vec<FieldValue> = Vec::new();
        let mut i: usize = 0;
        while i < self.model.columns.len()
            invariant
                0 <= i <= self.model.columns@.len(),
                self@ == self.model@,
                fields@.len() == i,
                forall|k: int| 0 <= k < i ==> (#[trigger] fields@[k]).attr_name@ == self@.columns[k].attr_name
                    && fields@[k].value is None,
            decreases self.model.columns@.len() - i,
        {
            fields.push(FieldValue { attr_name: self.model.columns[i].attr_name.clone(), value: None });
            i += 1;
        }
        Record { fields }
    }
}

/// The first association of a model named `name`.
pub open spec fn association_named(m: ModelView, name: Seq<char>) -> Option<AssociationView> {
    match find_association(m.associations, name) {
        Some(i) => Some(m.associations[i]),
        None => None,
    }
}

/// The first association through other models of a model named `name`.
pub open spec fn through_named(m: ModelView, name: Seq<char>) -> Option<ThroughView> {
    match find_through(m.through_associations, name) {
        Some(i) => Some(m.through_associations[i]),
        None => None,
    }
}

/// A value, or null for none.
pub open spec fn value_or_null(v: Option<Value>) -> Value {
    match v {
        Some(x) => x,
        None => Value::Null,
    }
}

/// `INNER JOIN table ON other_table.other_column = table.column`.
pub open spec fn inner_join(table: Seq<char>, other_table: Seq<char>, other_column: Seq<char>, column: Seq<char>) -> Seq<char> {
    "INNER JOIN "@ + table + " ON "@ + other_table + "."@ + other_column + " = "@ + table + "."@ + column
}

/// The index of an association found in a suffix, as an index of the whole sequence.
pub open spec fn shift_index(o: Option<int>, k: int) -> Option<int> {
    match o {
        Some(j) => Some(j + k),
        None => None,
    }
}

/// Builds `INNER JOIN table ON other_table.other_column = table.column`.
fn inner_join_text(table: &String, other_table: &String, other_column: &String, column: &String) -> (r: String)
    ensures
        r@ == inner_join(table@, other_table@, other_column@, column@),
{
    let mut s = String::from_str("INNER JOIN ");
    s.append(table.as_str());
    s.append(" ON ");
    s.append(other_table.as_str());
    s.append(".");
    s.append(other_column.as_str());
    s.append(" = ");
    s.append(table.as_str());
    s.append(".");
    s.append(column.as_str());
    s
}

impl Orm {
    /// The index of the first association named `name`.
    fn association_index(&self, name: &String) -> (r: Option<usize>)
        ensures
            shift_index(find_association(self@.associations, name@), 0) == match r {
                Some(i) => Some(i as int),
                None => None::<int>,
            },
            r matches Some(i) ==> i < self@.associations.len(),
    {
        let ghost a = self@.associations;
        let mut i: usize = 0;
        assert(a.skip(0) =~= a);
        while i < self.model.associations.len()
            invariant
                0 <= i <= self.model.associations@.len(),
                self@ == self.model@,
                a == self@.associations,
                find_association(a, name@) == shift_index(find_association(a.skip(i as int), name@), i as int),
            decreases self.model.associations@.len() - i,
        {
            assert(a.skip(i as int)[0] == a[i as int]);
            assert(a.skip(i as int).drop_first() =~= a.skip(i + 1));
            if self.model.associations[i].name == *name {
                return Some(i);
            }
            i += 1;
        }
        assert(a.skip(i as int) =~= Seq::<AssociationView>::empty());
        None
    }

    /// The index of the first association through other models named `name`.
    fn through_index(&self, name: &String) -> (r: Option<usize>)
        ensures
            shift_index(find_through(self@.through_associations, name@), 0) == match r {
                Some(i) => Some(i as int),
                None => None::<int>,
            },
            r matches Some(i) ==> i < self@.through_associations.len(),
    {
        let ghost a = self@.through_associations;
        let mut i: usize = 0;
        assert(a.skip(0) =~= a);
        while i < self.model.through_associations.len()
            invariant
                0 <= i <= self.model.through_associations@.len(),
                self@ == self.model@,
                a == self@.through_associations,
                find_through(a, name@) == shift_index(find_through(a.skip(i as int), name@), i as int),
            decreases self.model.through_associations@.len() - i,
        {
            assert(a.skip(i as int)[0] == a[i as int]);
            assert(a.skip(i as int).drop_first() =~= a.skip(i + 1));
            if self.model.through_associations[i].name == *name {
                return Some(i);
            }
            i += 1;
        }
        assert(a.skip(i as int) =~= Seq::<ThroughView>::empty());
        None
    }

    /// The query of the `belongs_to` association `association_name` of a record: the row
    /// of the associated model's table whose primary key equals the record's foreign key
    /// (null when the record has no value there), at most one.
    pub fn belongs_to_query(&self, association_name: &str, record: &Record, target: &Orm) -> (r: SelectQuery)
        requires
            association_named(self@, association_name@) matches Some(a) && a.kind == AssociationKind::BelongsTo
                && target@.struct_name == a.struct_name,
            field_index(record.fields@, association_named(self@, association_name@).unwrap().foreign_key) is Some,
        ensures
            r@ == (QueryView {
                table_name: target@.table_name,
                conditions: seq![(target@.primary_key, value_or_null(record_value(record.fields@, association_named(self@, association_name@).unwrap().foreign_key)))],
                limit: Some(1),
            }),
    {
        let name = String::from_str(association_name);
        let i = self.association_index(&name).unwrap();
        let a = &self.model.associations[i];
        let mut query = target.query();
        let value = match record.get_json_value_from_attr_name__(a.foreign_key.as_str()) {
            Some(v) => v,
            None => Value::Null,
        };
        query.where_eq(target.primary_key(), value);
        query.limit(1);
        query
    }

    /// The query of the `has_one` association `association_name` of a record: the row of
    /// the associated model's table whose foreign key equals the record's value of this
    /// model's primary key (null when it has none), at most one.
    pub fn has_one_query(&self, association_name: &str, record: &Record, target: &Orm) -> (r: SelectQuery)
        requires
            association_named(self@, association_name@) matches Some(a) && a.kind == AssociationKind::HasOne
                && target@.struct_name == a.struct_name
                && column_names(target@).contains(a.foreign_key),
        ensures
            r@ == (QueryView {
                table_name: target@.table_name,
                conditions: seq![(association_named(self@, association_name@).unwrap().foreign_key, value_or_null(record_value(record.fields@, self@.primary_key)))],
                limit: Some(1),
            }),
    {
        let name = String::from_str(association_name);
        let i = self.association_index(&name).unwrap();
        let a = &self.model.associations[i];
        let mut query = target.query();
        let value = match record.get_json_value_from_attr_name__(self.model.primary_key.as_str()) {
            Some(v) => v,
            None => Value::Null,
        };
        query.where_eq(a.foreign_key.clone(), value);
        query.limit(1);
        query
    }

    /// The join of the `belongs_to` association `association_name`: this model's table
    /// joined on the associated table's primary key equal to this model's foreign key.
    pub fn belongs_to_join_string(&self, association_name: &str, target: &Orm) -> (r: String)
        requires
            association_named(self@, association_name@) matches Some(a) && a.kind == AssociationKind::BelongsTo
                && target@.struct_name == a.struct_name
                && column_names(self@).contains(a.foreign_key),
        ensures
            r@ == inner_join(self@.table_name, target@.table_name, target@.primary_key,
                association_named(self@, association_name@).unwrap().foreign_key),
    {
        let name = String::from_str(association_name);
        let i = self.association_index(&name).unwrap();
        let a = &self.model.associations[i];
        inner_join_text(&self.model.table_name, &target.table_name(), &target.primary_key(), &a.foreign_key)
    }

    /// The join of the `has_one` association `association_name`: this model's table joined
    /// on the associated table's foreign key equal to this model's primary key.
    pub fn has_one_join_string(&self, association_name: &str, target: &Orm) -> (r: String)
        requires
            association_named(self@, association_name@) matches Some(a) && a.kind == AssociationKind::HasOne
                && target@.struct_name == a.struct_name
                && column_names(target@).contains(a.foreign_key),
        ensures
            r@ == inner_join(self@.table_name, target@.table_name,
                association_named(self@, association_name@).unwrap().foreign_key, self@.primary_key),
    {
        let name = String::from_str(association_name);
        let i = self.association_index(&name).unwrap();
        let a = &self.model.associations[i];
        inner_join_text(&self.model.table_name, &target.table_name(), &a.foreign_key, &self.model.primary_key)
    }

    /// The join of the association `association_name` through other models: the joins of
    /// its steps (`step_joins`, in order), then this model's table joined on the last
    /// model's foreign key equal to this model's primary key, separated by spaces.
    pub fn through_join_string(&self, association_name: &str, step_joins: &Vec<String>, last: &Orm) -> (r: String)
        requires
            through_named(self@, association_name@) matches Some(t) && last@.struct_name == t.last_struct_name
                && step_joins@.len() == t.steps.len(),
        ensures
            r@ == join(names_view(step_joins@).push(inner_join(self@.table_name, last@.table_name,
                through_named(self@, association_name@).unwrap().last_foreign_key, self@.primary_key)), " "@),
    {
        let name = String::from_str(association_name);
        let i = self.through_index(&name).unwrap();
        let t = &self.model.through_associations[i];
        let ghost parts = names_view(step_joins@).push(inner_join(self@.table_name, last@.table_name, t.last_foreign_key@, self@.primary_key));
        let mut s = String::new();
        let mut k: usize = 0;
        assert(parts.take(0) =~= Seq::<Seq<char>>::empty());
        while k < step_joins.len()
            invariant
                0 <= k <= step_joins@.len(),
                parts.len() == step_joins@.len() + 1,
                forall|j: int| 0 <= j < step_joins@.len() ==> parts[j] == (#[trigger] step_joins@[j])@,
                s@ == join(parts.take(k as int), " "@),
            decreases step_joins@.len() - k,
        {
            assert(parts.take(k + 1).drop_last() =~= parts.take(k as int));
            assert(parts.take(k + 1).last() == step_joins@[k as int]@);
            if k > 0 {
                s.append(" ");
            }
            s.append(step_joins[k].as_str());
            assert(s@ =~= join(parts.take(k + 1), " "@));
            k += 1;
        }
        let last_join = inner_join_text(&self.model.table_name, &last.table_name(), &t.last_foreign_key, &self.model.primary_key);
        assert(parts.take(k + 1) =~= parts);
        assert(parts.take(k + 1).drop_last() =~= parts.take(k as int));
        if k > 0 {
            s.append(" ");
        }
        s.append(last_join.as_str());
        assert(s@ =~= join(parts, " "@));
        s
    }
}

} // verus!
