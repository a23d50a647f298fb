//! `has_one(...)` associations: another model holds this model's foreign key, either
//! directly or through a chain of other `has_one` associations.
use vstd::prelude::*;
use vstd::string::*;
use crate::meta::{NestedMeta, Lit};
use crate::error::MacroError;
use crate::helper::{value_in, names_view, groups_match, group_value};
use crate::derive_input::{DeriveInputHelper, get_namespace_nested_metas_vec};
use crate::inflect::default_foreign_key;
use crate::belongs_to::opt_association;
use crate::model::{
    Step, Association, AssociationView, AssociationKind, ThroughStep, ThroughStepView, ThroughAssociation, ThroughView,
    Outcome, has_one_of, through_item, through_steps, through_chain, through_of, has_one_all, has_one_groups,
    find_named, named, value_or,
};

verus! {

/// The view of an optional triple of strings.
pub open spec fn opt_triple(o: Option<(String, String, String)>) -> Option<(Seq<char>, Seq<char>, Seq<char>)> {
    match o {
        Some((a, b, c)) => Some((a@, b@, c@)),
        None => None,
    }
}

/// The view of an optional pair of strings.
pub open spec fn opt_pair(o: Option<(String, String)>) -> Option<(Seq<char>, Seq<char>)> {
    match o {
        Some((a, b)) => Some((a@, b@)),
        None => None,
    }
}

/// The views of a list of joins.
pub open spec fn steps_view(s: Seq<ThroughStep>) -> Seq<ThroughStepView> {
    s.map_values(|t: ThroughStep| t@)
}

/// The view of an optional association through other models.
pub open spec fn opt_through(o: Option<ThroughAssociation>) -> Option<ThroughView> {
    match o {
        Some(t) => Some(t@),
        None => None,
    }
}

/// The plain association that one non-empty `has_one(...)` list declares, as
/// `has_one_of` says. (An empty list has no leading entry to read; the caller stops the
/// expansion there.)
pub fn handle_association_attributes(has_one_args: &Vec<NestedMeta>, derive_input_helper: &DeriveInputHelper) -> (r: Result<Option<Association>, MacroError>)
    requires
        has_one_args@.len() > 0,
    ensures
        match r {
            Ok(o) => has_one_of(has_one_args@, derive_input_helper@.ident@) == Outcome::Value(opt_association(o)),
            Err(e) => has_one_of(has_one_args@, derive_input_helper@.ident@) == Outcome::<Option<AssociationView>>::Error(e.message@),
        },
{
    let self_name = &derive_input_helper.value().ident;
    match &has_one_args[0] {
        NestedMeta::Lit(Lit::Str(name)) => {
            match value_in(has_one_args, "struct") {
                Some(struct_name) => {
                    let foreign_key = match value_in(has_one_args, "foreign_key") {
                        Some(fk) => fk,
                        None => default_foreign_key(self_name.as_str()),
                    };
                    Ok(Some(Association {
                        kind: AssociationKind::HasOne,
                        name: name.clone(),
                        struct_name,
                        foreign_key,
                    }))
                },
                None => Err(MacroError { message: String::from_str("loss attr: struct") }),
            }
        },
        _ => Ok(None),
    }
}

/// What one non-empty list of a chain contributes, as `through_item` says: its struct,
/// its foreign key and the association it names on its struct.
pub fn handle_association_through_attributes(through_args: &Vec<NestedMeta>, derive_input_helper: &DeriveInputHelper) -> (r: Result<Option<(String, String, String)>, MacroError>)
    requires
        through_args@.len() > 0,
    ensures
        match r {
            Ok(o) => through_item(through_args@, derive_input_helper@.ident@) == Outcome::Value(opt_triple(o)),
            Err(e) => through_item(through_args@, derive_input_helper@.ident@) == Outcome::<Option<(Seq<char>, Seq<char>, Seq<char>)>>::Error(e.message@),
        },
{
    let self_name = &derive_input_helper.value().ident;
    match &through_args[0] {
        NestedMeta::Lit(Lit::Str(name)) => {
            match value_in(through_args, "struct") {
                Some(struct_name) => {
                    let foreign_key = match value_in(through_args, "foreign_key") {
                        Some(fk) => fk,
                        None => default_foreign_key(self_name.as_str()),
                    };
                    let source = match value_in(through_args, "source") {
                        Some(s) => s,
                        None => name.clone(),
                    };
                    Ok(Some((struct_name, foreign_key, source)))
                },
                None => Err(MacroError { message: String::from_str("Error: loss attr struct") }),
            }
        },
        _ => Ok(None),
    }
}

/// An index found in a suffix, as an index of the whole sequence.
pub open spec fn shift_found(o: Outcome<Option<int>>, k: int) -> Outcome<Option<int>> {
    match o {
        Outcome::Value(Some(j)) => Outcome::Value(Some(j + k)),
        r => r,
    }
}

/// The index of the first list named `name`, as `find_named` says.
fn find_named_group(groups: &Vec<&Vec<NestedMeta>>, name: &String, Ghost(all): Ghost<Seq<Seq<NestedMeta>>>) -> (r: Step<Option<usize>>)
    requires
        groups_match(groups@, all),
    ensures
        match r {
            Step::Done(Some(i)) => find_named(all, name@) == Outcome::Value(Some(i as int)) && i < all.len(),
            Step::Done(None) => find_named(all, name@) == Outcome::<Option<int>>::Value(None),
            Step::Failed(_) => false,
            Step::Aborted => find_named(all, name@) is Abort,
        },
{
    let mut i: usize = 0;
    assert(all.skip(0) =~= all);
    while i < groups.len()
        invariant
            0 <= i <= groups@.len(),
            groups_match(groups@, all),
            find_named(all, name@) == shift_found(find_named(all.skip(i as int), name@), i as int),
        decreases groups@.len() - i,
    {
        let ghost rest = all.skip(i as int);
        assert(rest[0] == all[i as int]);
        assert(rest.drop_first() =~= all.skip(i + 1));
        assert(groups@[i as int]@ == all[i as int]);
        let g = groups[i];
        if g.len() == 0 {
            assert(find_named(rest, name@) is Abort);
            return Step::Aborted;
        }
        let is_named = match &g[0] {
            NestedMeta::Lit(Lit::Str(s)) => *s == *name,
            _ => false,
        };
        assert(is_named == named(all[i as int], name@));
        if is_named {
            return Step::Done(Some(i));
        }
        i += 1;
    }
    assert(all.skip(i as int) =~= Seq::<Seq<NestedMeta>>::empty());
    Step::Done(None)
}

/// A chain found from some point on, after the lists already met.
pub open spec fn chain_after(prefix: Seq<Seq<NestedMeta>>, o: Outcome<Seq<Seq<NestedMeta>>>) -> Outcome<Seq<Seq<NestedMeta>>> {
    match o {
        Outcome::Value(c) => Outcome::Value(prefix + c),
        r => r,
    }
}

/// The chain of `has_one(...)` lists that the association `through_name` goes through,
/// as `through_chain` says.
fn get_through_nested_metas_recursion<'a>(through_name: &String, groups: &Vec<&'a Vec<NestedMeta>>, Ghost(all): Ghost<Seq<Seq<NestedMeta>>>) -> (r: Step<Vec<&'a Vec<NestedMeta>>>)
    requires
        groups_match(groups@, all),
    ensures
        match r {
            Step::Done(v) => through_chain(all, through_name@, all.len() as nat) == Outcome::Value(v@.map_values(|g: &Vec<NestedMeta>| g@)),
            Step::Failed(_) => false,
            Step::Aborted => through_chain(all, through_name@, all.len() as nat) is Abort,
        },
{
    let mut res: Vec<&'a Vec<NestedMeta>> = Vec::new();
    let mut name = through_name.clone();
    let mut fuel: usize = groups.len();
    let ghost total = through_chain(all, through_name@, all.len() as nat);
    assert(res@.map_values(|g: &Vec<NestedMeta>| g@) =~= Seq::<Seq<NestedMeta>>::empty());
    assert(chain_after(Seq::<Seq<NestedMeta>>::empty(), total) == total) by {
        match total {
            Outcome::Value(c) => {
                assert(Seq::<Seq<NestedMeta>>::empty() + c =~= c);
            },
            _ => {},
        }
    }
    loop
        invariant_except_break
            groups_match(groups@, all),
            total == through_chain(all, through_name@, all.len() as nat),
            total == chain_after(res@.map_values(|g: &Vec<NestedMeta>| g@), through_chain(all, name@, fuel as nat)),
        ensures
            total == Outcome::Value(res@.map_values(|g: &Vec<NestedMeta>| g@)),
            total == through_chain(all, through_name@, all.len() as nat),
        decreases fuel,
    {
        let ghost prefix = res@.map_values(|g: &Vec<NestedMeta>| g@);
        let ghost here = through_chain(all, name@, fuel as nat);
        match find_named_group(groups, &name, Ghost(all)) {
            Step::Done(None) => {
                assert(here == Outcome::Value(Seq::<Seq<NestedMeta>>::empty()));
                assert(prefix + Seq::<Seq<NestedMeta>>::empty() =~= prefix);
                break;
            },
            Step::Done(Some(i)) => {
                let g = groups[i];
                assert(g@ == all[i as int]);
                res.push(g);
                assert(res@.map_values(|g: &Vec<NestedMeta>| g@) =~= prefix + seq![all[i as int]]);
                match value_in(g, "through") {
                    None => {
                        assert(here == Outcome::Value(seq![all[i as int]]));
                        break;
                    },
                    Some(t) => {
                        if fuel == 0 {
                            assert(here is Abort);
                            return Step::Aborted;
                        }
                        let ghost next = through_chain(all, t@, (fuel - 1) as nat);
                        assert(here == chain_after(seq![all[i as int]], next));
                        proof {
                            match next {
                                Outcome::Value(c) => {
                                    assert(prefix + (seq![all[i as int]] + c) =~= (prefix + seq![all[i as int]]) + c);
                                },
                                _ => {},
                            }
                        }
                        fuel = fuel - 1;
                        name = t;
                    },
                }
            },
            _ => {
                assert(here is Abort);
                return Step::Aborted;
            },
        }
    }
    Step::Done(res)
}

/// The joins of a chain from its `i`-th list on, starting with the association
/// `in_name`, as `through_steps` says.
fn through_steps_from(chain: &Vec<&Vec<NestedMeta>>, i: usize, in_name: String, derive_input_helper: &DeriveInputHelper, Ghost(c): Ghost<Seq<Seq<NestedMeta>>>) -> (r: Step<(Vec<ThroughStep>, Option<(String, String)>)>)
    requires
        groups_match(chain@, c),
        i <= c.len(),
    ensures
        match r {
            Step::Done((s, l)) => through_steps(c.skip(i as int), in_name@, derive_input_helper@.ident@) == Outcome::Value((steps_view(s@), opt_pair(l))),
            Step::Failed(e) => through_steps(c.skip(i as int), in_name@, derive_input_helper@.ident@) == Outcome::<(Seq<ThroughStepView>, Option<(Seq<char>, Seq<char>)>)>::Error(e.message@),
            Step::Aborted => through_steps(c.skip(i as int), in_name@, derive_input_helper@.ident@) is Abort,
        },
    decreases c.len() - i,
{
    if i == chain.len() {
        assert(c.skip(i as int) =~= Seq::<Seq<NestedMeta>>::empty());
        let empty: Vec<ThroughStep> = Vec::new();
        assert(steps_view(empty@) =~= Seq::<ThroughStepView>::empty());
        return Step::Done((empty, None));
    }
    let ghost rest = c.skip(i as int);
    assert(rest[0] == c[i as int]);
    assert(rest.drop_first() =~= c.skip(i + 1));
    assert(chain@[i as int]@ == c[i as int]);
    if chain[i].len() == 0 {
        return Step::Aborted;
    }
    match handle_association_through_attributes(chain[i], derive_input_helper) {
        Ok(None) => through_steps_from(chain, i + 1, in_name, derive_input_helper, Ghost(c)),
        Ok(Some((st, fk, src))) => {
            match through_steps_from(chain, i + 1, src, derive_input_helper, Ghost(c)) {
                Step::Done((rest_steps, last)) => {
                    let mut steps: Vec<ThroughStep> = Vec::new();
                    steps.push(ThroughStep { struct_name: st.clone(), association_name: in_name });
                    let mut rest_steps = rest_steps;
                    let ghost rest_view = rest_steps@;
                    steps.append(&mut rest_steps);
                    assert(steps_view(steps@) =~= seq![steps@[0]@] + steps_view(rest_view));
                    let last = match last {
                        Some(l) => Some(l),
                        None => Some((st, fk)),
                    };
                    Step::Done((steps, last))
                },
                Step::Failed(e) => Step::Failed(e),
                Step::Aborted => Step::Aborted,
            }
        },
        Err(e) => Step::Failed(e),
    }
}

/// The association through other models that one non-empty `has_one(...)` list
/// declares, as `through_of` says; `groups` are all the model's `has_one(...)` lists.
pub fn generate_has_one_through_associations(has_one_args: &Vec<NestedMeta>, derive_input_helper: &DeriveInputHelper, groups: &Vec<&Vec<NestedMeta>>, Ghost(all): Ghost<Seq<Seq<NestedMeta>>>) -> (r: Step<Option<ThroughAssociation>>)
    requires
        has_one_args@.len() > 0,
        groups_match(groups@, all),
    ensures
        match r {
            Step::Done(o) => through_of(has_one_args@, all, derive_input_helper@.ident@) == Outcome::Value(opt_through(o)),
            Step::Failed(e) => through_of(has_one_args@, all, derive_input_helper@.ident@) == Outcome::<Option<ThroughView>>::Error(e.message@),
            Step::Aborted => through_of(has_one_args@, all, derive_input_helper@.ident@) is Abort,
        },
{
    match &has_one_args[0] {
        NestedMeta::Lit(Lit::Str(name)) => {
            match value_in(has_one_args, "struct") {
                Some(struct_name) => {
                    match value_in(has_one_args, "through") {
                        Some(through_name) => {
                            let chain = match get_through_nested_metas_recursion(&through_name, groups, Ghost(all)) {
                                Step::Done(c) => c,
                                _ => return Step::Aborted,
                            };
                            let ghost cv = chain@.map_values(|g: &Vec<NestedMeta>| g@);
                            assert(groups_match(chain@, cv));
                            let in_name = match value_in(has_one_args, "source") {
                                Some(s) => s,
                                None => name.clone(),
                            };
                            assert(in_name@ == value_or(group_value(has_one_args@, "source"@), name@));
                            assert(cv.skip(0) =~= cv);
                            match through_steps_from(&chain, 0, in_name, derive_input_helper, Ghost(cv)) {
                                Step::Done((steps, Some((last_struct_name, last_foreign_key)))) => {
                                    Step::Done(Some(ThroughAssociation {
                                        name: name.clone(),
                                        struct_name,
                                        steps,
                                        last_struct_name,
                                        last_foreign_key,
                                    }))
                                },
                                Step::Done((_, None)) => Step::Done(None),
                                Step::Failed(e) => Step::Failed(e),
                                Step::Aborted => Step::Aborted,
                            }
                        },
                        None => Step::Done(None),
                    }
                },
                None => Step::Failed(MacroError { message: String::from_str("Error: loss attr struct") }),
            }
        },
        _ => Step::Done(None),
    }
}

/// Once a prefix of the lists ends in an error or an abort, so do all longer prefixes.
proof fn lemma_has_one_prefix(gs: Seq<Seq<NestedMeta>>, all: Seq<Seq<NestedMeta>>, self_name: Seq<char>, i: int, k: int)
    requires
        0 <= i <= k <= gs.len(),
        !(has_one_all(gs.take(i), all, self_name) is Value),
    ensures
        has_one_all(gs.take(k), all, self_name) == has_one_all(gs.take(i), all, self_name),
    decreases k - i,
{
    if k > i {
        lemma_has_one_prefix(gs, all, self_name, i, k - 1);
        assert(gs.take(k).drop_last() =~= gs.take(k - 1));
    }
}

/// The associations of the `has_one(...)` lists of a definition, in order: the plain
/// ones and those through other models.
pub fn generate_has_one_associations_define(derive_input_helper: &DeriveInputHelper, args: &Vec<NestedMeta>) -> (r: Step<(Vec<Association>, Vec<ThroughAssociation>)>)
    ensures
        match r {
            Step::Done((a, t)) => has_one_all(has_one_groups(derive_input_helper@, args@), has_one_groups(derive_input_helper@, args@), derive_input_helper@.ident@)
                == Outcome::Value((a@.map_values(|x: Association| x@), t@.map_values(|x: ThroughAssociation| x@))),
            Step::Failed(e) => has_one_all(has_one_groups(derive_input_helper@, args@), has_one_groups(derive_input_helper@, args@), derive_input_helper@.ident@)
                == Outcome::<(Seq<AssociationView>, Seq<ThroughView>)>::Error(e.message@),
            Step::Aborted => has_one_all(has_one_groups(derive_input_helper@, args@), has_one_groups(derive_input_helper@, args@), derive_input_helper@.ident@) is Abort,
        },
{
    let ghost all = has_one_groups(derive_input_helper@, args@);
    let ghost self_name = derive_input_helper@.ident@;
    let mut plain: Vec<Association> = Vec::new();
    let mut through: Vec<ThroughAssociation> = Vec::new();
    let mut namespaces: Vec<String> = Vec::new();
    namespaces.push(String::from_str("has_one"));
    assert(names_view(namespaces@) =~= seq!["has_one"@]);
    assert(plain@.map_values(|x: Association| x@) =~= Seq::<AssociationView>::empty());
    assert(through@.map_values(|x: ThroughAssociation| x@) =~= Seq::<ThroughView>::empty());
    let groups = match get_namespace_nested_metas_vec(&namespaces, derive_input_helper, args) {
        Some(v) => v,
        None => {
            assert(all =~= Seq::<Seq<NestedMeta>>::empty());
            return Step::Done((plain, through));
        },
    };
    assert(all.take(0) =~= Seq::<Seq<NestedMeta>>::empty());
    let mut i: usize = 0;
    while i < groups.len()
        invariant
            0 <= i <= groups@.len(),
            groups_match(groups@, all),
            all == has_one_groups(derive_input_helper@, args@),
            self_name == derive_input_helper@.ident@,
            has_one_all(all.take(i as int), all, self_name)
                == Outcome::Value((plain@.map_values(|x: Association| x@), through@.map_values(|x: ThroughAssociation| x@))),
        decreases groups@.len() - i,
    {
        let ghost pv = plain@.map_values(|x: Association| x@);
        let ghost tv = through@.map_values(|x: ThroughAssociation| x@);
        assert(all.take(i + 1).drop_last() =~= all.take(i as int));
        assert(all.take(i + 1).last() == all[i as int]);
        assert(groups@[i as int]@ == all[i as int]);
        if groups[i].len() == 0 {
            proof {
                lemma_has_one_prefix(all, all, self_name, i + 1, all.len() as int);
                assert(all.take(all.len() as int) =~= all);
            }
            return Step::Aborted;
        }
        match generate_has_one_through_associations(groups[i], derive_input_helper, &groups, Ghost(all)) {
            Step::Done(Some(t)) => {
                through.push(t);
                assert(through@.map_values(|x: ThroughAssociation| x@) =~= tv.push(t@));
            },
            Step::Done(None) => {
                match handle_association_attributes(groups[i], derive_input_helper) {
                    Ok(Some(a)) => {
                        plain.push(a);
                        assert(plain@.map_values(|x: Association| x@) =~= pv.push(a@));
                    },
                    Ok(None) => {},
                    Err(e) => {
                        proof {
                            lemma_has_one_prefix(all, all, self_name, i + 1, all.len() as int);
                            assert(all.take(all.len() as int) =~= all);
                        }
                        return Step::Failed(e);
                    },
                }
            },
            Step::Failed(e) => {
                proof {
                    lemma_has_one_prefix(all, all, self_name, i + 1, all.len() as int);
                    assert(all.take(all.len() as int) =~= all);
                }
                return Step::Failed(e);
            },
            Step::Aborted => {
                proof {
                    lemma_has_one_prefix(all, all, self_name, i + 1, all.len() as int);
                    assert(all.take(all.len() as int) =~= all);
                }
                return Step::Aborted;
            },
        }
        i += 1;
    }
    assert(all.take(all.len() as int) =~= all);
    Step::Done((plain, through))
}

} // verus!
