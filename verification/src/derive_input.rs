//! The definition that a model is expanded from: the struct's name, its attributes
//! and its fields with theirs.
use vstd::prelude::*;
use vstd::string::*;
use crate::meta::{Meta, NestedMeta};
use crate::error::MacroError;
use crate::helper::{groups_match, metas_groups, nested_groups, names_view, get_namespace_nested_metas_vec_from_metas, get_namespace_nested_metas_vec_from_nested_metas};

verus! {

/// A named field and its attributes.
pub struct Field {
    pub ident: String,
    pub attrs: Vec<Meta>,
}

/// The fields of a struct.
pub enum Fields {
    Named(Vec<Field>),
    Unnamed,
    Unit,
}

/// What was defined: a struct with its fields, an enum or a union.
pub enum Data {
    Struct(Fields),
    Enum,
    Union,
}

/// A definition: its name, its attributes (as attribute items) and its data.
pub struct DeriveInput {
    pub ident: String,
    pub attrs: Vec<Meta>,
    pub data: Data,
}

/// The message when the definition is not a struct with named fields.
pub open spec fn not_struct_message() -> Seq<char> {
    "Must Define On Struct, Not Allow On Enum Or Union"@
}

/// The named fields of a definition, when it is a struct with named fields.
pub open spec fn named_fields(d: DeriveInput) -> Option<Seq<Field>> {
    match d.data {
        Data::Struct(Fields::Named(v)) => Some(v@),
        _ => None,
    }
}

/// Holds the definition that a model is expanded from.
pub struct DeriveInputHelper {
    value: DeriveInput,
}

impl View for DeriveInputHelper {
    type V = DeriveInput;

    closed spec fn view(&self) -> DeriveInput {
        self.value
    }
}

impl DeriveInputHelper {
    pub fn new(value: DeriveInput) -> (r: Self)
        ensures
            r@ == value,
    {
        Self { value }
    }

    pub fn value(&self) -> (r: &DeriveInput)
        ensures
            *r == self@,
    {
        &self.value
    }

    /// The named fields; an error when the definition is not a struct with named fields.
    pub fn get_fields(&self) -> (r: Result<&Vec<Field>, MacroError>)
        ensures
            match r {
                Ok(v) => named_fields(self@) == Some(v@),
                Err(e) => named_fields(self@) is None && e.message@ == not_struct_message(),
            },
    {
        match &self.value.data {
            Data::Struct(Fields::Named(v)) => Ok(v),
            _ => Err(MacroError { message: String::from_str("Must Define On Struct, Not Allow On Enum Or Union") }),
        }
    }
}

/// The groups of a namespace path in the definition's own attributes, then in the
/// attribute arguments.
pub open spec fn namespace_groups(d: DeriveInput, args: Seq<NestedMeta>, ns: Seq<Seq<char>>) -> Seq<Seq<NestedMeta>> {
    metas_groups(d.attrs@, ns) + nested_groups(args, ns)
}

/// The groups of the namespace path `namespaces` in the definition's attributes and then
/// in the arguments; `None` when there are none.
pub fn get_namespace_nested_metas_vec<'a>(namespaces: &Vec<String>, derive_input_helper: &'a DeriveInputHelper, args: &'a Vec<NestedMeta>) -> (r: Option<Vec<&'a Vec<NestedMeta>>>)
    ensures
        match r {
            Some(v) => {
                &&& groups_match(v@, namespace_groups(derive_input_helper@, args@, names_view(namespaces@)))
                &&& v@.len() > 0
            },
            None => namespace_groups(derive_input_helper@, args@, names_view(namespaces@)).len() == 0,
        },
{
    let ghost ns = names_view(namespaces@);
    let ghost a = metas_groups(derive_input_helper@.attrs@, ns);
    let ghost b = nested_groups(args@, ns);
    let mut total: Vec<&'a Vec<NestedMeta>> = Vec::new();
    if let Some(mut v) = get_namespace_nested_metas_vec_from_metas(&derive_input_helper.value().attrs, namespaces) {
        total.append(&mut v);
    }
    assert(groups_match(total@, a));
    let ghost before = total@;
    if let Some(mut v) = get_namespace_nested_metas_vec_from_nested_metas(args, namespaces) {
        let ghost vv = v@;
        total.append(&mut v);
        assert forall|k: int| 0 <= k < (a + b).len() implies #[trigger] total@[k]@ == (a + b)[k] by {
            if k >= a.len() {
                assert(total@[k] == vv[k - a.len()]);
            }
        }
    } else {
        assert(b =~= Seq::<Seq<NestedMeta>>::empty());
        assert(a + b =~= a);
    }
    assert(groups_match(total@, a + b));
    if total.len() > 0 {
        Some(total)
    } else {
        None
    }
}

} // verus!
