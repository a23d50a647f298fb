//! The attribute syntax that a model definition carries: paths, literals,
//! `name = "value"` pairs and nested lists such as `has_one("wallet", struct = "Wallet")`.
use vstd::prelude::*;

verus! {

/// A literal inside an attribute: a string literal by its value, any other literal by its text.
pub enum Lit {
    Str(String),
    Other(String),
}

/// A path such as `orm`, `table_name` or `a::b`.
pub struct Path {
    pub leading_colon: bool,
    pub segments: Vec<String>,
}

/// One attribute item: a bare path, a list `path(...)`, or a pair `path = literal`.
pub enum Meta {
    Path(Path),
    List(Path, Vec<NestedMeta>),
    NameValue(Path, Lit),
}

/// An entry inside a list: another attribute item or a literal.
pub enum NestedMeta {
    Meta(Meta),
    Lit(Lit),
}

/// The view of an optional string.
pub open spec fn opt_str(o: Option<String>) -> Option<Seq<char>> {
    match o {
        Some(s) => Some(s@),
        None => None,
    }
}

/// A path names exactly the single identifier `name`.
pub open spec fn path_is_ident(p: Path, name: Seq<char>) -> bool {
    &&& !p.leading_colon
    &&& p.segments@.len() == 1
    &&& p.segments@[0]@ == name
}

/// The value of `attr = "value"` when `m` is exactly that pair with a string literal.
pub open spec fn meta_value(m: Meta, attr: Seq<char>) -> Option<Seq<char>> {
    match m {
        Meta::NameValue(p, Lit::Str(s)) => if path_is_ident(p, attr) {
            Some(s@)
        } else {
            None
        },
        _ => None,
    }
}

/// Whether a path is the single identifier `name`.
pub fn is_ident(p: &Path, name: &String) -> (r: bool)
    ensures
        r == path_is_ident(*p, name@),
{
    !p.leading_colon && p.segments.len() == 1 && p.segments[0] == *name
}

/// The string value of `meta` when it is the pair `attr_name = "value"`.
pub fn get_macro_attr_value_from_meta(meta: &Meta, attr_name: &String) -> (r: Option<String>)
    ensures
        opt_str(r) == meta_value(*meta, attr_name@),
{
    match meta {
        Meta::NameValue(p, Lit::Str(s)) => {
            if is_ident(p, attr_name) {
                Some(s.clone())
            } else {
                None
            }
        },
        _ => None,
    }
}

} // verus!
