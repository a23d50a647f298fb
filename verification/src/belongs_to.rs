//! `belongs_to(...)` associations: the model holds the foreign key of another model.
use vstd::prelude::*;
use vstd::string::*;
use crate::meta::{NestedMeta, Lit};
use crate::error::MacroError;
use crate::helper::{value_in, names_view, groups_match};
use crate::derive_input::{DeriveInputHelper, get_namespace_nested_metas_vec};
use crate::inflect::default_foreign_key;
use crate::model::{Step, Association, AssociationView, AssociationKind, Outcome, belongs_to_of, belongs_to_all, belongs_to_groups};

verus! {

/// The view of an optional association.
pub open spec fn opt_association(o: Option<Association>) -> Option<AssociationView> {
    match o {
        Some(a) => Some(a@),
        None => None,
    }
}

/// The association that one non-empty `belongs_to(...)` list declares, as `belongs_to_of`
/// says. (An empty list has no leading entry to read; the caller stops the expansion there.)
pub fn handle_association_attributes(belongs_to_args: &Vec<NestedMeta>) -> (r: Result<Option<Association>, MacroError>)
    requires
        belongs_to_args@.len() > 0,
    ensures
        match r {
            Ok(o) => belongs_to_of(belongs_to_args@) == Outcome::Value(opt_association(o)),
            Err(e) => belongs_to_of(belongs_to_args@) == Outcome::<Option<AssociationView>>::Error(e.message@),
        },
{
    match &belongs_to_args[0] {
        NestedMeta::Lit(Lit::Str(name)) => {
            match value_in(belongs_to_args, "struct") {
                Some(struct_name) => {
                    let foreign_key = match value_in(belongs_to_args, "foreign_key") {
                        Some(fk) => fk,
                        None => default_foreign_key(struct_name.as_str()),
                    };
                    Ok(Some(Association {
                        kind: AssociationKind::BelongsTo,
                        name: name.clone(),
                        struct_name,
                        foreign_key,
                    }))
                },
                None => Err(MacroError { message: String::from_str("Error: Loss Attr struct") }),
            }
        },
        _ => Ok(None),
    }
}

/// Once a prefix of the lists ends in an error or an abort, so do all longer prefixes.
proof fn lemma_belongs_to_prefix(gs: Seq<Seq<NestedMeta>>, i: int, k: int)
    requires
        0 <= i <= k <= gs.len(),
        !(belongs_to_all(gs.take(i)) is Value),
    ensures
        belongs_to_all(gs.take(k)) == belongs_to_all(gs.take(i)),
    decreases k - i,
{
    if k > i {
        lemma_belongs_to_prefix(gs, i, k - 1);
        assert(gs.take(k).drop_last() =~= gs.take(k - 1));
    }
}

/// The associations of the `belongs_to(...)` lists of a definition, in order.
pub fn generate_belongs_to_associations_define(derive_input_helper: &DeriveInputHelper, args: &Vec<NestedMeta>) -> (r: Step<Vec<Association>>)
    ensures
        match r {
            Step::Done(v) => belongs_to_all(belongs_to_groups(derive_input_helper@, args@)) == Outcome::Value(v@.map_values(|a: Association| a@)),
            Step::Failed(e) => belongs_to_all(belongs_to_groups(derive_input_helper@, args@)) == Outcome::<Seq<AssociationView>>::Error(e.message@),
            Step::Aborted => belongs_to_all(belongs_to_groups(derive_input_helper@, args@)) is Abort,
        },
{
    let ghost gs = belongs_to_groups(derive_input_helper@, args@);
    let mut res: Vec<Association> = Vec::new();
    let mut namespaces: Vec<String> = Vec::new();
    namespaces.push(String::from_str("belongs_to"));
    assert(names_view(namespaces@) =~= seq!["belongs_to"@]);
    let groups = match get_namespace_nested_metas_vec(&namespaces, derive_input_helper, args) {
        Some(v) => v,
        None => {
            assert(gs =~= Seq::<Seq<NestedMeta>>::empty());
            assert(res@.map_values(|a: Association| a@) =~= Seq::<AssociationView>::empty());
            return Step::Done(res);
        },
    };
    assert(gs.take(0) =~= Seq::<Seq<NestedMeta>>::empty());
    assert(res@.map_values(|a: Association| a@) =~= Seq::<AssociationView>::empty());
    let mut i: usize = 0;
    while i < groups.len()
        invariant
            0 <= i <= groups@.len(),
            groups_match(groups@, gs),
            gs == belongs_to_groups(derive_input_helper@, args@),
            belongs_to_all(gs.take(i as int)) == Outcome::Value(res@.map_values(|a: Association| a@)),
        decreases groups@.len() - i,
    {
        let ghost prev = res@.map_values(|a: Association| a@);
        assert(gs.take(i + 1).drop_last() =~= gs.take(i as int));
        assert(gs.take(i + 1).last() == gs[i as int]);
        assert(groups@[i as int]@ == gs[i as int]);
        if groups[i].len() == 0 {
            proof {
                lemma_belongs_to_prefix(gs, i + 1, gs.len() as int);
                assert(gs.take(gs.len() as int) =~= gs);
            }
            return Step::Aborted;
        }
        match handle_association_attributes(groups[i]) {
            Ok(Some(a)) => {
                res.push(a);
                assert(res@.map_values(|a: Association| a@) =~= prev.push(a@));
            },
            Ok(None) => {},
            Err(e) => {
                assert(belongs_to_of(gs.take(i + 1).last()) == Outcome::<Option<AssociationView>>::Error(e.message@));
                assert(belongs_to_all(gs.take(i + 1)) == Outcome::<Seq<AssociationView>>::Error(e.message@));
                proof {
                    lemma_belongs_to_prefix(gs, i + 1, gs.len() as int);
                    assert(gs.take(gs.len() as int) =~= gs);
                }
                return Step::Failed(e);
            },
        }
        i += 1;
    }
    assert(gs.take(gs.len() as int) =~= gs);
    Step::Done(res)
}

} // verus!
