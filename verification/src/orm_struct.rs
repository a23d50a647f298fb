//! Expanding a model definition: its table, primary key, columns and associations.
use vstd::prelude::*;
use vstd::string::*;
use crate::meta::NestedMeta;
use crate::error::MacroError;
use crate::helper::{get_macro_nested_attr_value_ident, get_macro_attr_value_ident, names_view, opt_names};
use crate::derive_input::{DeriveInputHelper, Field};
use crate::inflect::to_table_case;
use crate::belongs_to::generate_belongs_to_associations_define;
use crate::has_one::generate_has_one_associations_define;
use crate::model::{
    Step, Column, ColumnView, Association, AssociationView, ThroughAssociation, ThroughView, OrmModel, ModelView, Outcome,
    column_of, columns_of, trait_functions_of, associations_of, expand, model_arg_names, };

verus! {

/// The names accepted as pairs among the attribute arguments, as strings.
fn model_arg_names_vec() -> (r: Vec<String>)
    ensures
        names_view(r@) == model_arg_names(),
{
    let mut v: Vec<String> = Vec::new();
    v.push(String::from_str("table_name"));
    v.push(String::from_str("primary_key"));
    v.push(String::from_str("locking_column"));
    assert(names_view(v@) =~= model_arg_names());
    v
}

/// The column that a field is stored in, as `column_of` says.
pub fn field_column(f: &Field) -> (r: Column)
    ensures
        r@ == column_of(*f),
{
    let mut ns: Vec<String> = Vec::new();
    ns.push(String::from_str("orm"));
    assert(names_view(ns@) =~= seq!["orm"@]);
    let column_name = match get_macro_attr_value_ident(&f.attrs, "table_column_name", Some(&ns), None) {
        Ok(Some(rename)) => rename,
        _ => f.ident.clone(),
    };
    Column { attr_name: f.ident.clone(), column_name }
}

/// The table name, the primary key and the columns of a definition, as
/// `trait_functions_of` says.
pub fn generate_struct_orm_trait_functions_define(derive_input_helper: &DeriveInputHelper, args: &Vec<NestedMeta>) -> (r: Result<(String, String, Vec<Column>), MacroError>)
    ensures
        match r {
            Ok((tn, pk, cols)) => trait_functions_of(derive_input_helper@, args@) == Outcome::Value((tn@, pk@, cols@.map_values(|c: Column| c@))),
            Err(e) => trait_functions_of(derive_input_helper@, args@) == Outcome::<(Seq<char>, Seq<char>, Seq<ColumnView>)>::Error(e.message@),
        },
{
    let fields = match derive_input_helper.get_fields() {
        Ok(f) => f,
        Err(e) => return Err(e),
    };
    let allow = model_arg_names_vec();
    assert(opt_names(Some(&allow)) == Some(model_arg_names()));
    let table_name = match get_macro_nested_attr_value_ident(args, "table_name", None, Some(&allow)) {
        Ok(Some(t)) => t,
        Ok(None) => to_table_case(derive_input_helper.value().ident.as_str()),
        Err(e) => return Err(e),
    };
    let primary_key = match get_macro_nested_attr_value_ident(args, "primary_key", None, Some(&allow)) {
        Ok(Some(p)) => p,
        Ok(None) => String::from_str("id"),
        Err(e) => return Err(e),
    };
    let ghost fs = fields@;
    let mut columns: Vec<Column> = Vec::new();
    let mut i: usize = 0;
    while i < fields.len()
        invariant
            0 <= i <= fields@.len(),
            fs == fields@,
            columns@.map_values(|c: Column| c@) == columns_of(fs.take(i as int)),
        decreases fields@.len() - i,
    {
        let c = field_column(&fields[i]);
        let ghost before = columns@.map_values(|c: Column| c@);
        columns.push(c);
        assert(columns_of(fs.take(i + 1)) =~= columns_of(fs.take(i as int)).push(column_of(fs[i as int])));
        assert(columns@.map_values(|c: Column| c@) =~= before.push(c@));
        i += 1;
    }
    assert(fs.take(fs.len() as int) =~= fs);
    Ok((table_name, primary_key, columns))
}

/// The associations of a definition, as `associations_of` says: those of
/// `belongs_to(...)`, then those of `has_one(...)`.
pub fn generate_associations_define(derive_input_helper: &DeriveInputHelper, args: &Vec<NestedMeta>) -> (r: Step<(Vec<Association>, Vec<ThroughAssociation>)>)
    ensures
        match r {
            Step::Done((a, t)) => associations_of(derive_input_helper@, args@) == Outcome::Value((a@.map_values(|x: Association| x@), t@.map_values(|x: ThroughAssociation| x@))),
            Step::Failed(e) => associations_of(derive_input_helper@, args@) == Outcome::<(Seq<AssociationView>, Seq<ThroughView>)>::Error(e.message@),
            Step::Aborted => associations_of(derive_input_helper@, args@) is Abort,
        },
{
    let mut associations = match generate_belongs_to_associations_define(derive_input_helper, args) {
        Step::Done(v) => v,
        Step::Failed(e) => return Step::Failed(e),
        Step::Aborted => return Step::Aborted,
    };
    let ghost bt = associations@.map_values(|x: Association| x@);
    match generate_has_one_associations_define(derive_input_helper, args) {
        Step::Done((plain, through)) => {
            let ghost hv = plain@.map_values(|x: Association| x@);
            let mut plain = plain;
            associations.append(&mut plain);
            assert(associations@.map_values(|x: Association| x@) =~= bt + hv);
            Step::Done((associations, through))
        },
        Step::Failed(e) => Step::Failed(e),
        Step::Aborted => Step::Aborted,
    }
}

/// Expands a definition with its attribute arguments, as `expand` says: the model; an
/// error when the definition is not a struct with named fields, when an argument pair is
/// not one of `table_name`, `primary_key` and `locking_column`, or when an association
/// lacks its `struct`; or the point where the expansion aborts.
pub fn expand_definition(derive_input_helper: &DeriveInputHelper, args: &Vec<NestedMeta>) -> (r: Step<OrmModel>)
    ensures
        match r {
            Step::Done(m) => expand(derive_input_helper@, args@) == Outcome::Value(m@),
            Step::Failed(e) => expand(derive_input_helper@, args@) == Outcome::<ModelView>::Error(e.message@),
            Step::Aborted => expand(derive_input_helper@, args@) is Abort,
        },
{
    let (table_name, primary_key, columns) = match generate_struct_orm_trait_functions_define(derive_input_helper, args) {
        Ok(t) => t,
        Err(e) => return Step::Failed(e),
    };
    match generate_associations_define(derive_input_helper, args) {
        Step::Done((associations, through_associations)) => {
            let m = OrmModel {
                struct_name: derive_input_helper.value().ident.clone(),
                table_name,
                primary_key,
                columns,
                associations,
                through_associations,
            };
            Step::Done(m)
        },
        Step::Failed(e) => Step::Failed(e),
        Step::Aborted => Step::Aborted,
    }
}

} // verus!
