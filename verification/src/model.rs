//! What a model definition expands to: its table, its primary key, its columns and its
//! associations, and the rules by which they follow from the definition.
use vstd::prelude::*;
use crate::meta::{NestedMeta, Lit};
use crate::helper::{group_value, attr_value, nested_attr_value};
use crate::derive_input::{DeriveInput, Field, named_fields, namespace_groups, not_struct_message};
use crate::inflect::{snake_case, table_case, foreign_key_of};

verus! {

/// A field of the model and the table column that stores it.
pub struct Column {
    pub attr_name: String,
    pub column_name: String,
}

/// Which side of a one-to-one relation an association stands on.
#[derive(PartialEq, Eq, Structural, Clone, Copy)]
pub enum AssociationKind {
    /// The model holds the foreign key to the other model.
    BelongsTo,
    /// The other model holds the foreign key to this model.
    HasOne,
}

/// An association `name` to the model `struct_name` over the column `foreign_key`.
pub struct Association {
    pub kind: AssociationKind,
    pub name: String,
    pub struct_name: String,
    pub foreign_key: String,
}

/// One join of an association through other models: the join of the association
/// `association_name` of the model `struct_name`.
pub struct ThroughStep {
    pub struct_name: String,
    pub association_name: String,
}

/// An association `name` to the model `struct_name` that goes through other models: the
/// joins of `steps`, then a join of this model with `last_struct_name` over its column
/// `last_foreign_key`.
pub struct ThroughAssociation {
    pub name: String,
    pub struct_name: String,
    pub steps: Vec<ThroughStep>,
    pub last_struct_name: String,
    pub last_foreign_key: String,
}

/// A model: the struct's name, its table, its primary key, its columns in field order,
/// and its associations.
pub struct OrmModel {
    pub struct_name: String,
    pub table_name: String,
    pub primary_key: String,
    pub columns: Vec<Column>,
    pub associations: Vec<Association>,
    pub through_associations: Vec<ThroughAssociation>,
}

pub struct ColumnView {
    pub attr_name: Seq<char>,
    pub column_name: Seq<char>,
}

pub struct AssociationView {
    pub kind: AssociationKind,
    pub name: Seq<char>,
    pub struct_name: Seq<char>,
    pub foreign_key: Seq<char>,
}

pub struct ThroughStepView {
    pub struct_name: Seq<char>,
    pub association_name: Seq<char>,
}

pub struct ThroughView {
    pub name: Seq<char>,
    pub struct_name: Seq<char>,
    pub steps: Seq<ThroughStepView>,
    pub last_struct_name: Seq<char>,
    pub last_foreign_key: Seq<char>,
}

pub struct ModelView {
    pub struct_name: Seq<char>,
    pub table_name: Seq<char>,
    pub primary_key: Seq<char>,
    pub columns: Seq<ColumnView>,
    pub associations: Seq<AssociationView>,
    pub through_associations: Seq<ThroughView>,
}

impl View for Column {
    type V = ColumnView;

    open spec fn view(&self) -> ColumnView {
        ColumnView { attr_name: self.attr_name@, column_name: self.column_name@ }
    }
}

impl View for Association {
    type V = AssociationView;

    open spec fn view(&self) -> AssociationView {
        AssociationView {
            kind: self.kind,
            name: self.name@,
            struct_name: self.struct_name@,
            foreign_key: self.foreign_key@,
        }
    }
}

impl View for ThroughStep {
    type V = ThroughStepView;

    open spec fn view(&self) -> ThroughStepView {
        ThroughStepView { struct_name: self.struct_name@, association_name: self.association_name@ }
    }
}

impl View for ThroughAssociation {
    type V = ThroughView;

    open spec fn view(&self) -> ThroughView {
        ThroughView {
            name: self.name@,
            struct_name: self.struct_name@,
            steps: self.steps@.map_values(|s: ThroughStep| s@),
            last_struct_name: self.last_struct_name@,
            last_foreign_key: self.last_foreign_key@,
        }
    }
}

impl View for OrmModel {
    type V = ModelView;

    open spec fn view(&self) -> ModelView {
        ModelView {
            struct_name: self.struct_name@,
            table_name: self.table_name@,
            primary_key: self.primary_key@,
            columns: self.columns@.map_values(|c: Column| c@),
            associations: self.associations@.map_values(|a: Association| a@),
            through_associations: self.through_associations@.map_values(|t: ThroughAssociation| t@),
        }
    }
}

/// How an expansion step ends: with a value, with an error message, or not at all (the
/// expansion aborts, or never ends).
pub enum Outcome<T> {
    Value(T),
    Error(Seq<char>),
    Abort,
}

/// How an expansion step ends when it runs: with a value, with an error, or `Aborted`
/// where the expansion has no result: an association entry list is empty (there is no
/// leading entry to read, and the attribute panics), or a chain of `through`
/// associations meets a list a second time (and never ends). `Aborted` stands for that
/// panic or endless recursion; nothing is computed past it.
pub enum Step<T> {
    Done(T),
    Failed(crate::error::MacroError),
    Aborted,
}

/// The value of an option, or a default.
pub open spec fn value_or(o: Option<Seq<char>>, d: Seq<char>) -> Seq<char> {
    match o {
        Some(v) => v,
        None => d,
    }
}

/// The names accepted as pairs among the attribute arguments.
pub open spec fn model_arg_names() -> Seq<Seq<char>> {
    seq!["table_name"@, "primary_key"@, "locking_column"@]
}

/// The column that a field is stored in: the `table_column_name` of its first `orm(...)`
/// attribute, or else the field's own name.
pub open spec fn column_of(f: Field) -> ColumnView {
    ColumnView {
        attr_name: f.ident@,
        column_name: match attr_value(f.attrs@, "table_column_name"@, Some(seq!["orm"@]), None) {
            Ok(Some(r)) => r,
            _ => f.ident@,
        },
    }
}

/// The columns of a list of fields, in order.
pub open spec fn columns_of(fields: Seq<Field>) -> Seq<ColumnView> {
    fields.map_values(|f: Field| column_of(f))
}

/// The leading string literal of an association's entries (its name); the expansion
/// aborts on an empty list.
pub open spec fn first_name(g: Seq<NestedMeta>) -> Outcome<Option<Seq<char>>> {
    if g.len() == 0 {
        Outcome::Abort
    } else {
        match g[0] {
            NestedMeta::Lit(Lit::Str(s)) => Outcome::Value(Some(s@)),
            _ => Outcome::Value(None),
        }
    }
}

/// The association that one `belongs_to(...)` entry list declares: none without a leading
/// name; an error without `struct`; the foreign key is `foreign_key`, or else the
/// snake-case form of the associated struct's name followed by `_id`.
pub open spec fn belongs_to_of(g: Seq<NestedMeta>) -> Outcome<Option<AssociationView>> {
    match first_name(g) {
        Outcome::Value(Some(name)) => match group_value(g, "struct"@) {
            None => Outcome::Error("Error: Loss Attr struct"@),
            Some(st) => Outcome::Value(Some(AssociationView {
                kind: AssociationKind::BelongsTo,
                name: name,
                struct_name: st,
                foreign_key: value_or(group_value(g, "foreign_key"@), foreign_key_of(snake_case(st))),
            })),
        },
        Outcome::Value(None) => Outcome::Value(None),
        Outcome::Error(e) => Outcome::Error(e),
        Outcome::Abort => Outcome::Abort,
    }
}

/// The associations of a sequence of `belongs_to(...)` entry lists, in order; the first
/// error or abort ends the expansion.
pub open spec fn belongs_to_all(gs: Seq<Seq<NestedMeta>>) -> Outcome<Seq<AssociationView>>
    decreases gs.len(),
{
    if gs.len() == 0 {
        Outcome::Value(seq![])
    } else {
        match belongs_to_all(gs.drop_last()) {
            Outcome::Value(v) => match belongs_to_of(gs.last()) {
                Outcome::Value(Some(a)) => Outcome::Value(v.push(a)),
                Outcome::Value(None) => Outcome::Value(v),
                Outcome::Error(e) => Outcome::Error(e),
                Outcome::Abort => Outcome::Abort,
            },
            r => r,
        }
    }
}

/// A list of entries whose leading item is the string literal `name`.
pub open spec fn named(g: Seq<NestedMeta>, name: Seq<char>) -> bool {
    g.len() > 0 && match g[0] {
        NestedMeta::Lit(Lit::Str(s)) => s@ == name,
        _ => false,
    }
}

/// The index of the first entry list named `name`; the search aborts on an empty list
/// that it meets before it.
pub open spec fn find_named(all: Seq<Seq<NestedMeta>>, name: Seq<char>) -> Outcome<Option<int>>
    decreases all.len(),
{
    if all.len() == 0 {
        Outcome::Value(None)
    } else if all[0].len() == 0 {
        Outcome::Abort
    } else if named(all[0], name) {
        Outcome::Value(Some(0))
    } else {
        match find_named(all.drop_first(), name) {
            Outcome::Value(Some(j)) => Outcome::Value(Some(j + 1)),
            Outcome::Value(None) => Outcome::Value(None),
            Outcome::Error(e) => Outcome::Error(e),
            Outcome::Abort => Outcome::Abort,
        }
    }
}

/// The chain of `has_one(...)` entry lists that an association goes through: the list
/// named `name`, then the chain of its own `through`; with no `fuel` left the chain has
/// met a list a second time and never ends.
pub open spec fn through_chain(all: Seq<Seq<NestedMeta>>, name: Seq<char>, fuel: nat) -> Outcome<Seq<Seq<NestedMeta>>>
    decreases fuel,
{
    match find_named(all, name) {
        Outcome::Value(None) => Outcome::Value(seq![]),
        Outcome::Value(Some(i)) => match group_value(all[i], "through"@) {
            None => Outcome::Value(seq![all[i]]),
            Some(t) => if fuel == 0 {
                Outcome::Abort
            } else {
                match through_chain(all, t, (fuel - 1) as nat) {
                    Outcome::Value(c) => Outcome::Value(seq![all[i]] + c),
                    Outcome::Error(e) => Outcome::Error(e),
                    Outcome::Abort => Outcome::Abort,
                }
            },
        },
        Outcome::Error(e) => Outcome::Error(e),
        Outcome::Abort => Outcome::Abort,
    }
}

/// What one list of a chain contributes: its `struct`, its foreign key (`foreign_key`, or
/// the snake-case form of `self_name` followed by `_id`) and the association it names on
/// its own struct (`source`, or its own name).
pub open spec fn through_item(g: Seq<NestedMeta>, self_name: Seq<char>) -> Outcome<Option<(Seq<char>, Seq<char>, Seq<char>)>> {
    match first_name(g) {
        Outcome::Value(Some(n)) => match group_value(g, "struct"@) {
            None => Outcome::Error("Error: loss attr struct"@),
            Some(st) => Outcome::Value(Some((
                st,
                value_or(group_value(g, "foreign_key"@), foreign_key_of(snake_case(self_name))),
                value_or(group_value(g, "source"@), n),
            ))),
        },
        Outcome::Value(None) => Outcome::Value(None),
        Outcome::Error(e) => Outcome::Error(e),
        Outcome::Abort => Outcome::Abort,
    }
}

/// The joins of a chain, starting with the association `in_name`, and the struct and
/// foreign key of its last list.
pub open spec fn through_steps(chain: Seq<Seq<NestedMeta>>, in_name: Seq<char>, self_name: Seq<char>) -> Outcome<(Seq<ThroughStepView>, Option<(Seq<char>, Seq<char>)>)>
    decreases chain.len(),
{
    if chain.len() == 0 {
        Outcome::Value((seq![], None))
    } else {
        match through_item(chain[0], self_name) {
            Outcome::Value(None) => through_steps(chain.drop_first(), in_name, self_name),
            Outcome::Value(Some((st, fk, src))) => match through_steps(chain.drop_first(), src, self_name) {
                Outcome::Value((steps, last)) => Outcome::Value((
                    seq![ThroughStepView { struct_name: st, association_name: in_name }] + steps,
                    match last {
                        Some(l) => Some(l),
                        None => Some((st, fk)),
                    },
                )),
                Outcome::Error(e) => Outcome::Error(e),
                Outcome::Abort => Outcome::Abort,
            },
            Outcome::Error(e) => Outcome::Error(e),
            Outcome::Abort => Outcome::Abort,
        }
    }
}

/// The association through other models that one `has_one(...)` list declares, when it
/// names `through` and the chain of that name holds a list with a `struct`.
pub open spec fn through_of(g: Seq<NestedMeta>, all: Seq<Seq<NestedMeta>>, self_name: Seq<char>) -> Outcome<Option<ThroughView>> {
    match first_name(g) {
        Outcome::Value(Some(name)) => match group_value(g, "struct"@) {
            None => Outcome::Error("Error: loss attr struct"@),
            Some(st) => match group_value(g, "through"@) {
                None => Outcome::Value(None),
                Some(t) => match through_chain(all, t, all.len() as nat) {
                    Outcome::Value(chain) => match through_steps(chain, value_or(group_value(g, "source"@), name), self_name) {
                        Outcome::Value((steps, Some((ls, lfk)))) => Outcome::Value(Some(ThroughView {
                            name: name,
                            struct_name: st,
                            steps: steps,
                            last_struct_name: ls,
                            last_foreign_key: lfk,
                        })),
                        Outcome::Value((_, None)) => Outcome::Value(None),
                        Outcome::Error(e) => Outcome::Error(e),
                        Outcome::Abort => Outcome::Abort,
                    },
                    Outcome::Error(e) => Outcome::Error(e),
                    Outcome::Abort => Outcome::Abort,
                },
            },
        },
        Outcome::Value(None) => Outcome::Value(None),
        Outcome::Error(e) => Outcome::Error(e),
        Outcome::Abort => Outcome::Abort,
    }
}

/// The plain association that one `has_one(...)` list declares: none without a leading
/// name; an error without `struct`; the foreign key, held by the other model, is
/// `foreign_key`, or else the snake-case form of `self_name` followed by `_id`.
pub open spec fn has_one_of(g: Seq<NestedMeta>, self_name: Seq<char>) -> Outcome<Option<AssociationView>> {
    match first_name(g) {
        Outcome::Value(Some(name)) => match group_value(g, "struct"@) {
            None => Outcome::Error("loss attr: struct"@),
            Some(st) => Outcome::Value(Some(AssociationView {
                kind: AssociationKind::HasOne,
                name: name,
                struct_name: st,
                foreign_key: value_or(group_value(g, "foreign_key"@), foreign_key_of(snake_case(self_name))),
            })),
        },
        Outcome::Value(None) => Outcome::Value(None),
        Outcome::Error(e) => Outcome::Error(e),
        Outcome::Abort => Outcome::Abort,
    }
}

/// The associations of a sequence of `has_one(...)` lists, in order: each list declares
/// an association through other models if it can, else a plain one; `all` are all the
/// `has_one(...)` lists of the model, where chains are looked up.
pub open spec fn has_one_all(gs: Seq<Seq<NestedMeta>>, all: Seq<Seq<NestedMeta>>, self_name: Seq<char>) -> Outcome<(Seq<AssociationView>, Seq<ThroughView>)>
    decreases gs.len(),
{
    if gs.len() == 0 {
        Outcome::Value((seq![], seq![]))
    } else {
        match has_one_all(gs.drop_last(), all, self_name) {
            Outcome::Value((ps, ts)) => match through_of(gs.last(), all, self_name) {
                Outcome::Value(Some(t)) => Outcome::Value((ps, ts.push(t))),
                Outcome::Value(None) => match has_one_of(gs.last(), self_name) {
                    Outcome::Value(Some(a)) => Outcome::Value((ps.push(a), ts)),
                    Outcome::Value(None) => Outcome::Value((ps, ts)),
                    Outcome::Error(e) => Outcome::Error(e),
                    Outcome::Abort => Outcome::Abort,
                },
                Outcome::Error(e) => Outcome::Error(e),
                Outcome::Abort => Outcome::Abort,
            },
            r => r,
        }
    }
}

/// The `belongs_to(...)` lists of a definition.
pub open spec fn belongs_to_groups(d: DeriveInput, args: Seq<NestedMeta>) -> Seq<Seq<NestedMeta>> {
    namespace_groups(d, args, seq!["belongs_to"@])
}

/// The `has_one(...)` lists of a definition.
pub open spec fn has_one_groups(d: DeriveInput, args: Seq<NestedMeta>) -> Seq<Seq<NestedMeta>> {
    namespace_groups(d, args, seq!["has_one"@])
}

/// The table name, the primary key and the columns that a definition declares: the table
/// is `table_name`, or else the table-case form of the struct's name; the primary key is
/// `primary_key`, or else `id`.
pub open spec fn trait_functions_of(d: DeriveInput, args: Seq<NestedMeta>) -> Outcome<(Seq<char>, Seq<char>, Seq<ColumnView>)> {
    match named_fields(d) {
        None => Outcome::Error(not_struct_message()),
        Some(fields) => match nested_attr_value(args, "table_name"@, None, Some(model_arg_names())) {
            Err(e) => Outcome::Error(e),
            Ok(tn) => match nested_attr_value(args, "primary_key"@, None, Some(model_arg_names())) {
                Err(e) => Outcome::Error(e),
                Ok(pk) => Outcome::Value((
                    value_or(tn, table_case(d.ident@)),
                    value_or(pk, "id"@),
                    columns_of(fields),
                )),
            },
        },
    }
}

/// The associations that a definition declares: those of `belongs_to(...)`, then those
/// of `has_one(...)`.
pub open spec fn associations_of(d: DeriveInput, args: Seq<NestedMeta>) -> Outcome<(Seq<AssociationView>, Seq<ThroughView>)> {
    match belongs_to_all(belongs_to_groups(d, args)) {
        Outcome::Value(bt) => match has_one_all(has_one_groups(d, args), has_one_groups(d, args), d.ident@) {
            Outcome::Value((ho, th)) => Outcome::Value((bt + ho, th)),
            Outcome::Error(e) => Outcome::Error(e),
            Outcome::Abort => Outcome::Abort,
        },
        Outcome::Error(e) => Outcome::Error(e),
        Outcome::Abort => Outcome::Abort,
    }
}

/// The model that a definition with its attribute arguments expands to.
pub open spec fn expand(d: DeriveInput, args: Seq<NestedMeta>) -> Outcome<ModelView> {
    match trait_functions_of(d, args) {
        Outcome::Value((tn, pk, cols)) => match associations_of(d, args) {
            Outcome::Value((assocs, throughs)) => Outcome::Value(ModelView {
                struct_name: d.ident@,
                table_name: tn,
                primary_key: pk,
                columns: cols,
                associations: assocs,
                through_associations: throughs,
            }),
            Outcome::Error(e) => Outcome::Error(e),
            Outcome::Abort => Outcome::Abort,
        },
        Outcome::Error(e) => Outcome::Error(e),
        Outcome::Abort => Outcome::Abort,
    }
}

} // verus!
