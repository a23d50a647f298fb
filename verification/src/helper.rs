//! Finding the entries of a namespace (`orm(...)`, `has_one(...)`) in attribute
//! lists, and finding the value of a `name = "value"` pair among them.
use vstd::prelude::*;
use vstd::string::*;
use crate::meta::{Meta, NestedMeta, Path, path_is_ident, meta_value, opt_str, is_ident, get_macro_attr_value_from_meta};
use crate::error::MacroError;


verus! {

/// The views of a list of names.
pub open spec fn names_view(ns: Seq<String>) -> Seq<Seq<char>> {
    ns.map_values(|s: String| s@)
}

/// The groups that a list of references stands for.
pub open spec fn groups_match(res: Seq<&Vec<NestedMeta>>, g: Seq<Seq<NestedMeta>>) -> bool {
    &&& res.len() == g.len()
    &&& forall|k: int| 0 <= k < g.len() ==> #[trigger] res[k]@ == g[k]
}

/// The groups of entries that the namespace path `ns` reaches from the list `nested`:
/// with no namespace left, the list itself; otherwise, for each list item `p(...)` whose
/// path has a segment equal to the first namespace, the groups of the rest of the
/// namespace inside it, in order.
pub open spec fn nested_groups(nested: Seq<NestedMeta>, ns: Seq<Seq<char>>) -> Seq<Seq<NestedMeta>>
    decreases ns.len(), 3int, 0int,
{
    if ns.len() == 0 {
        seq![nested]
    } else {
        items_groups(nested, ns)
    }
}

/// The groups that a namespace path reaches from each entry of `items`, concatenated.
pub open spec fn items_groups(items: Seq<NestedMeta>, ns: Seq<Seq<char>>) -> Seq<Seq<NestedMeta>>
    decreases ns.len(), 2int, items.len(),
{
    if ns.len() == 0 || items.len() == 0 {
        seq![]
    } else {
        items_groups(items.drop_last(), ns) + match items.last() {
            NestedMeta::Meta(m) => meta_groups(m, ns),
            NestedMeta::Lit(_) => seq![],
        }
    }
}

/// The groups that a non-empty namespace path reaches from one attribute item.
pub open spec fn meta_groups(m: Meta, ns: Seq<Seq<char>>) -> Seq<Seq<NestedMeta>>
    decreases ns.len(), 1int, 0int,
{
    if ns.len() == 0 {
        seq![]
    } else {
        match m {
            Meta::List(p, inner) => segments_groups(p.segments@, inner@, ns),
            _ => seq![],
        }
    }
}

/// For each path segment equal to the first namespace, the groups of the rest of the
/// namespace inside the list `inner`.
pub open spec fn segments_groups(segs: Seq<String>, inner: Seq<NestedMeta>, ns: Seq<Seq<char>>) -> Seq<Seq<NestedMeta>>
    decreases ns.len(), 0int, segs.len(),
{
    if ns.len() == 0 || segs.len() == 0 {
        seq![]
    } else {
        segments_groups(segs.drop_last(), inner, ns) + if segs.last()@ == ns[0] {
            nested_groups(inner, ns.drop_first())
        } else {
            seq![]
        }
    }
}

/// The groups that a non-empty namespace path reaches from a list of attribute items;
/// nothing when the namespace path is empty.
pub open spec fn metas_groups(metas: Seq<Meta>, ns: Seq<Seq<char>>) -> Seq<Seq<NestedMeta>>
    decreases metas.len(),
{
    if ns.len() == 0 || metas.len() == 0 {
        seq![]
    } else {
        metas_groups(metas.drop_last(), ns) + meta_groups(metas.last(), ns)
    }
}

/// Appends groups to a list of groups.
fn extend_groups<'a>(res: &mut Vec<&'a Vec<NestedMeta>>, sub: Vec<&'a Vec<NestedMeta>>, Ghost(g): Ghost<Seq<Seq<NestedMeta>>>, Ghost(h): Ghost<Seq<Seq<NestedMeta>>>)
    requires
        groups_match(old(res)@, g),
        groups_match(sub@, h),
    ensures
        groups_match(final(res)@, g + h),
{
    let ghost sub_view = sub@;
    let mut sub = sub;
    res.append(&mut sub);
    assert forall|k: int| 0 <= k < (g + h).len() implies #[trigger] res@[k]@ == (g + h)[k] by {
        if k < g.len() {
        } else {
            assert(res@[k] == sub_view[k - g.len()]);
        }
    }
}

/// For each segment of the path `p` equal to the namespace at `depth`, the groups that
/// the namespaces after it reach inside `inner`.
fn segments_groups_from<'a>(p: &Path, inner: &'a Vec<NestedMeta>, namespaces: &Vec<String>, depth: usize) -> (res: Vec<&'a Vec<NestedMeta>>)
    requires
        depth < namespaces@.len(),
    ensures
        groups_match(res@, segments_groups(p.segments@, inner@, names_view(namespaces@).skip(depth as int))),
    decreases namespaces@.len() - depth, 0int,
{
    let ghost ns = names_view(namespaces@).skip(depth as int);
    let nlen = namespaces.len();
    assert(ns.len() > 0);
    assert(ns[0] == namespaces@[depth as int]@);
    assert(ns.drop_first() =~= names_view(namespaces@).skip(depth + 1));
    let mut res: Vec<&'a Vec<NestedMeta>> = Vec::new();
    let mut j: usize = 0;
    while j < p.segments.len()
        invariant
            0 <= j <= p.segments@.len(),
            depth < namespaces@.len(),
            nlen == namespaces@.len(),
            ns == names_view(namespaces@).skip(depth as int),
            ns.len() > 0,
            ns[0] == namespaces@[depth as int]@,
            ns.drop_first() == names_view(namespaces@).skip(depth + 1),
            groups_match(res@, segments_groups(p.segments@.take(j as int), inner@, ns)),
        decreases p.segments@.len() - j,
    {
        let ghost prev = segments_groups(p.segments@.take(j as int), inner@, ns);
        assert(p.segments@.take(j + 1).drop_last() =~= p.segments@.take(j as int));
        assert(p.segments@.take(j + 1).last() == p.segments@[j as int]);
        if p.segments[j] == namespaces[depth] {
            let sub = nested_groups_from(inner, namespaces, depth + 1);
            extend_groups(&mut res, sub, Ghost(prev), Ghost(nested_groups(inner@, ns.drop_first())));
            assert(prev + nested_groups(inner@, ns.drop_first()) =~= segments_groups(p.segments@.take(j + 1), inner@, ns));
        } else {
            assert(prev =~= segments_groups(p.segments@.take(j + 1), inner@, ns));
        }
        j += 1;
    }
    assert(p.segments@.take(p.segments@.len() as int) =~= p.segments@);
    res
}

/// The groups reached from `nested` by the namespaces from index `depth` on.
fn nested_groups_from<'a>(nested: &'a Vec<NestedMeta>, namespaces: &Vec<String>, depth: usize) -> (res: Vec<&'a Vec<NestedMeta>>)
    requires
        depth <= namespaces@.len(),
    ensures
        groups_match(res@, nested_groups(nested@, names_view(namespaces@).skip(depth as int))),
    decreases namespaces@.len() - depth, 1int,
{
    let ghost ns = names_view(namespaces@).skip(depth as int);
    let mut res: Vec<&'a Vec<NestedMeta>> = Vec::new();
    if depth == namespaces.len() {
        res.push(nested);
        assert(groups_match(res@, seq![nested@]));
        return res;
    }
    assert(ns.len() > 0);
    let mut i: usize = 0;
    while i < nested.len()
        invariant
            0 <= i <= nested@.len(),
            depth < namespaces@.len(),
            ns == names_view(namespaces@).skip(depth as int),
            ns.len() > 0,
            groups_match(res@, items_groups(nested@.take(i as int), ns)),
        decreases nested@.len() - i,
    {
        let ghost before = items_groups(nested@.take(i as int), ns);
        assert(nested@.take(i + 1).drop_last() =~= nested@.take(i as int));
        assert(nested@.take(i + 1).last() == nested@[i as int]);
        match &nested[i] {
            NestedMeta::Meta(Meta::List(p, inner)) => {
                let sub = segments_groups_from(p, inner, namespaces, depth);
                extend_groups(&mut res, sub, Ghost(before), Ghost(segments_groups(p.segments@, inner@, ns)));
                assert(before + meta_groups(Meta::List(*p, *inner), ns) =~= items_groups(nested@.take(i + 1), ns));
            },
            _ => {
                proof {
                    match nested@[i as int] {
                        NestedMeta::Meta(m) => {
                            assert(meta_groups(m, ns) =~= Seq::<Seq<NestedMeta>>::empty());
                        },
                        NestedMeta::Lit(_) => {},
                    }
                }
                assert(before =~= items_groups(nested@.take(i + 1), ns));
            },
        }
        i += 1;
    }
    assert(nested@.take(nested@.len() as int) =~= nested@);
    res
}

/// The groups of entries of the namespace path `namespaces` inside the list `nested_metas`:
/// the list itself when the path is empty; `None` when the path is not empty and
/// reaches nothing.
pub fn get_namespace_nested_metas_vec_from_nested_metas<'a>(nested_metas: &'a Vec<NestedMeta>, namespaces: &Vec<String>) -> (r: Option<Vec<&'a Vec<NestedMeta>>>)
    ensures
        match r {
            Some(v) => {
                &&& groups_match(v@, nested_groups(nested_metas@, names_view(namespaces@)))
                &&& v@.len() > 0
            },
            None => nested_groups(nested_metas@, names_view(namespaces@)).len() == 0,
        },
{
    let res = nested_groups_from(nested_metas, namespaces, 0);
    assert(names_view(namespaces@).skip(0) =~= names_view(namespaces@));
    if res.len() > 0 {
        Some(res)
    } else {
        None
    }
}

/// The groups of entries of the namespace path `namespaces` inside the attribute items
/// `metas`; `None` when the path is empty or reaches nothing.
pub fn get_namespace_nested_metas_vec_from_metas<'a>(metas: &'a Vec<Meta>, namespaces: &Vec<String>) -> (r: Option<Vec<&'a Vec<NestedMeta>>>)
    ensures
        match r {
            Some(v) => {
                &&& groups_match(v@, metas_groups(metas@, names_view(namespaces@)))
                &&& v@.len() > 0
            },
            None => metas_groups(metas@, names_view(namespaces@)).len() == 0,
        },
{
    let ghost ns = names_view(namespaces@);
    let mut res: Vec<&'a Vec<NestedMeta>> = Vec::new();
    if namespaces.len() == 0 {
        return None;
    }
    assert(ns.skip(0) =~= ns);
    let mut i: usize = 0;
    while i < metas.len()
        invariant
            0 <= i <= metas@.len(),
            0 < namespaces@.len(),
            ns == names_view(namespaces@),
            ns.skip(0) == ns,
            groups_match(res@, metas_groups(metas@.take(i as int), ns)),
        decreases metas@.len() - i,
    {
        let ghost before = metas_groups(metas@.take(i as int), ns);
        assert(metas@.take(i + 1).drop_last() =~= metas@.take(i as int));
        assert(metas@.take(i + 1).last() == metas@[i as int]);
        match &metas[i] {
            Meta::List(p, inner) => {
                let sub = segments_groups_from(p, inner, namespaces, 0);
                extend_groups(&mut res, sub, Ghost(before), Ghost(segments_groups(p.segments@, inner@, ns)));
                assert(before + meta_groups(Meta::List(*p, *inner), ns) =~= metas_groups(metas@.take(i + 1), ns));
            },
            _ => {
                assert(meta_groups(metas@[i as int], ns) =~= Seq::<Seq<NestedMeta>>::empty());
                assert(before =~= metas_groups(metas@.take(i + 1), ns));
            },
        }
        i += 1;
    }
    assert(metas@.take(metas@.len() as int) =~= metas@);
    if res.len() > 0 {
        Some(res)
    } else {
        None
    }
}

/// The views of an optional list of names.
pub open spec fn opt_names(o: Option<&Vec<String>>) -> Option<Seq<Seq<char>>> {
    match o {
        Some(v) => Some(names_view(v@)),
        None => None,
    }
}

/// Whether an attribute item passes the list of accepted names: with a list, a pair
/// `name = literal` must be named by one of them; anything else passes.
pub open spec fn meta_allowed(m: Meta, allow: Option<Seq<Seq<char>>>) -> bool {
    match allow {
        None => true,
        Some(a) => match m {
            Meta::NameValue(p, _) => exists|i: int| 0 <= i < a.len() && path_is_ident(p, #[trigger] a[i]),
            _ => true,
        },
    }
}

/// Names what std's `Debug` formatting (`{:?}`) writes for a list of strings.
pub uninterp spec fn debug_list(items: Seq<Seq<char>>) -> Seq<char>;

/// The message for an attribute pair whose name is not accepted.
pub open spec fn unsupported_message(allow: Seq<Seq<char>>) -> Seq<char> {
    "Support Macro Attr List: "@ + debug_list(allow)
}

/// Calls std's `Debug` formatting on a list of strings; its result is named `debug_list`
/// of the strings' views and nothing more is claimed of it.
#[verifier::external_body]
fn format_debug_list(items: &Vec<String>) -> (r: String)
    ensures
        r@ == debug_list(names_view(items@)),
{
    format!("{:?}", items)
}

/// Checks an attribute item against the accepted names.
pub fn check_meta_available(meta: &Meta, allow_attrs: Option<&Vec<String>>) -> (r: Result<bool, MacroError>)
    ensures
        match r {
            Ok(b) => b && meta_allowed(*meta, opt_names(allow_attrs)),
            Err(e) => {
                &&& !meta_allowed(*meta, opt_names(allow_attrs))
                &&& allow_attrs is Some
                &&& e.message@ == unsupported_message(names_view(allow_attrs.unwrap()@))
            },
        },
{
    if let Some(allow) = allow_attrs {
        if let Meta::NameValue(p, _) = meta {
            let ghost a = names_view(allow@);
            let mut found = false;
            let mut i: usize = 0;
            while i < allow.len()
                invariant
                    0 <= i <= allow@.len(),
                    a == names_view(allow@),
                    found <==> exists|k: int| 0 <= k < i && path_is_ident(*p, #[trigger] a[k]),
                decreases allow@.len() - i,
            {
                if is_ident(p, &allow[i]) {
                    found = true;
                }
                assert(a[i as int] == allow@[i as int]@);
                i += 1;
            }
            if !found {
                let listed = format_debug_list(allow);
                let mut message = String::from_str("Support Macro Attr List: ");
                message.append(listed.as_str());
                return Err(MacroError { message });
            }
        }
    }
    Ok(true)
}

/// Every attribute item of a group passes the accepted names.
pub open spec fn group_allowed(g: Seq<NestedMeta>, allow: Option<Seq<Seq<char>>>) -> bool {
    forall|i: int| 0 <= i < g.len() ==> match #[trigger] g[i] {
        NestedMeta::Meta(m) => meta_allowed(m, allow),
        NestedMeta::Lit(_) => true,
    }
}

/// The value of the first pair `attr = "value"` among the items of a group.
pub open spec fn group_value(g: Seq<NestedMeta>, attr: Seq<char>) -> Option<Seq<char>>
    decreases g.len(),
{
    if g.len() == 0 {
        None
    } else {
        match g[0] {
            NestedMeta::Meta(m) => match meta_value(m, attr) {
                Some(v) => Some(v),
                None => group_value(g.drop_first(), attr),
            },
            NestedMeta::Lit(_) => group_value(g.drop_first(), attr),
        }
    }
}

/// Looks for `attr` group by group: a group with an item that is not accepted ends the
/// search with an error; otherwise the first group that holds the pair gives its value.
pub open spec fn groups_lookup(gs: Seq<Seq<NestedMeta>>, attr: Seq<char>, allow: Option<Seq<Seq<char>>>) -> Result<Option<Seq<char>>, Seq<char>>
    decreases gs.len(),
{
    if gs.len() == 0 {
        Ok(None)
    } else if !group_allowed(gs[0], allow) {
        Err(unsupported_message(allow.unwrap()))
    } else {
        match group_value(gs[0], attr) {
            Some(v) => Ok(Some(v)),
            None => groups_lookup(gs.drop_first(), attr, allow),
        }
    }
}

/// A namespace path, with none meaning the empty one.
pub open spec fn ns_or_empty(ns: Option<Seq<Seq<char>>>) -> Seq<Seq<char>> {
    match ns {
        Some(n) => n,
        None => seq![],
    }
}

/// What looking up `attr` in the namespace `ns` of the list `nested` gives.
pub open spec fn nested_attr_value(nested: Seq<NestedMeta>, attr: Seq<char>, ns: Option<Seq<Seq<char>>>, allow: Option<Seq<Seq<char>>>) -> Result<Option<Seq<char>>, Seq<char>> {
    groups_lookup(nested_groups(nested, ns_or_empty(ns)), attr, allow)
}

/// The view of a lookup result.
pub open spec fn lookup_view(r: Result<Option<String>, MacroError>) -> Result<Option<Seq<char>>, Seq<char>> {
    match r {
        Ok(o) => Ok(opt_str(o)),
        Err(e) => Err(e.message@),
    }
}

/// Looks for `attr` in one group: first every item is checked against the accepted
/// names, then the first pair `attr = "value"` gives its value.
fn group_lookup(g: &Vec<NestedMeta>, attr: &String, allow: Option<&Vec<String>>) -> (r: Result<Option<String>, MacroError>)
    ensures
        lookup_view(r) == (if !group_allowed(g@, opt_names(allow)) {
            Err(unsupported_message(opt_names(allow).unwrap()))
        } else {
            Ok(group_value(g@, attr@))
        }),
{
    let mut i: usize = 0;
    while i < g.len()
        invariant
            0 <= i <= g@.len(),
            forall|k: int| 0 <= k < i ==> match #[trigger] g@[k] {
                NestedMeta::Meta(m) => meta_allowed(m, opt_names(allow)),
                NestedMeta::Lit(_) => true,
            },
        decreases g@.len() - i,
    {
        if let NestedMeta::Meta(m) = &g[i] {
            match check_meta_available(m, allow) {
                Ok(_) => {},
                Err(e) => {
                    assert(!group_allowed(g@, opt_names(allow)));
                    return Err(e);
                },
            }
        }
        i += 1;
    }
    assert(group_allowed(g@, opt_names(allow)));
    let mut j: usize = 0;
    assert(g@.skip(0) =~= g@);
    while j < g.len()
        invariant
            0 <= j <= g@.len(),
            group_allowed(g@, opt_names(allow)),
            group_value(g@, attr@) == group_value(g@.skip(j as int), attr@),
        decreases g@.len() - j,
    {
        assert(g@.skip(j as int)[0] == g@[j as int]);
        assert(g@.skip(j as int).drop_first() =~= g@.skip(j + 1));
        if let NestedMeta::Meta(m) = &g[j] {
            if let Some(v) = get_macro_attr_value_from_meta(m, attr) {
                assert(g@.skip(j as int).len() > 0);
                assert(group_value(g@.skip(j as int), attr@) == Some(v@));
                return Ok(Some(v));
            }
        }
        j += 1;
    }
    Ok(None)
}

/// Looks for `attr` group by group in the groups `gs`, as `groups_lookup` says.
fn groups_lookup_exec(gs: &Vec<&Vec<NestedMeta>>, attr: &String, allow: Option<&Vec<String>>, Ghost(g): Ghost<Seq<Seq<NestedMeta>>>) -> (r: Result<Option<String>, MacroError>)
    requires
        groups_match(gs@, g),
    ensures
        lookup_view(r) == groups_lookup(g, attr@, opt_names(allow)),
{
    let mut i: usize = 0;
    assert(g.skip(0) =~= g);
    while i < gs.len()
        invariant
            0 <= i <= gs@.len(),
            groups_match(gs@, g),
            groups_lookup(g, attr@, opt_names(allow)) == groups_lookup(g.skip(i as int), attr@, opt_names(allow)),
        decreases gs@.len() - i,
    {
        assert(g.skip(i as int)[0] == g[i as int]);
        assert(g.skip(i as int).drop_first() =~= g.skip(i + 1));
        match group_lookup(gs[i], attr, allow) {
            Err(e) => {
                return Err(e);
            },
            Ok(Some(v)) => {
                return Ok(Some(v));
            },
            Ok(None) => {},
        }
        i += 1;
    }
    Ok(None)
}

/// Looks for the pair `attr_name = "value"` in the namespace `namespaces` (none: the
/// list itself) of the list `nested_metas`, checking each group's items against
/// `namespace_allow_attrs` first.
pub fn get_macro_nested_attr_value_ident(nested_metas: &Vec<NestedMeta>, attr_name: &str, namespaces: Option<&Vec<String>>, namespace_allow_attrs: Option<&Vec<String>>) -> (r: Result<Option<String>, MacroError>)
    ensures
        lookup_view(r) == nested_attr_value(nested_metas@, attr_name@, opt_names(namespaces), opt_names(namespace_allow_attrs)),
{
    let attr = String::from_str(attr_name);
    let empty: Vec<String> = Vec::new();
    let ns = match namespaces {
        Some(n) => n,
        None => &empty,
    };
    assert(names_view(empty@) =~= Seq::<Seq<char>>::empty());
    assert(names_view(ns@) == ns_or_empty(opt_names(namespaces)));
    match get_namespace_nested_metas_vec_from_nested_metas(nested_metas, ns) {
        Some(groups) => groups_lookup_exec(&groups, &attr, namespace_allow_attrs, Ghost(nested_groups(nested_metas@, names_view(ns@)))),
        None => Ok(None),
    }
}

/// The result of looking up `attr` in a list of attribute items, item by item: an item
/// that is not accepted ends the search with an error; otherwise the first pair
/// `attr = "value"` gives its value.
pub open spec fn metas_value(metas: Seq<Meta>, attr: Seq<char>, allow: Option<Seq<Seq<char>>>) -> Result<Option<Seq<char>>, Seq<char>>
    decreases metas.len(),
{
    if metas.len() == 0 {
        Ok(None)
    } else if !meta_allowed(metas[0], allow) {
        Err(unsupported_message(allow.unwrap()))
    } else {
        match meta_value(metas[0], attr) {
            Some(v) => Ok(Some(v)),
            None => metas_value(metas.drop_first(), attr, allow),
        }
    }
}

/// What looking up `attr` in the attribute items `metas` gives: with an empty namespace
/// path, among the items themselves; otherwise in the first group that the path reaches.
pub open spec fn attr_value(metas: Seq<Meta>, attr: Seq<char>, ns: Option<Seq<Seq<char>>>, allow: Option<Seq<Seq<char>>>) -> Result<Option<Seq<char>>, Seq<char>> {
    let n = ns_or_empty(ns);
    if n.len() == 0 {
        metas_value(metas, attr, allow)
    } else if metas_groups(metas, n).len() > 0 {
        groups_lookup(seq![metas_groups(metas, n)[0]], attr, allow)
    } else {
        Ok(None)
    }
}

/// Looks for the pair `attr_name = "value"` among the attribute items `metas`: with no
/// namespace, among the items themselves (each checked against `namespace_allow_attrs`
/// before it is read); with a namespace, in the first group that it reaches.
pub fn get_macro_attr_value_ident(metas: &Vec<Meta>, attr_name: &str, namespaces: Option<&Vec<String>>, namespace_allow_attrs: Option<&Vec<String>>) -> (r: Result<Option<String>, MacroError>)
    ensures
        lookup_view(r) == attr_value(metas@, attr_name@, opt_names(namespaces), opt_names(namespace_allow_attrs)),
{
    let attr = String::from_str(attr_name);
    let has_namespace = match namespaces {
        Some(n) => n.len() > 0,
        None => false,
    };
    if !has_namespace {
        assert(ns_or_empty(opt_names(namespaces)).len() == 0);
        let mut i: usize = 0;
        assert(metas@.skip(0) =~= metas@);
        while i < metas.len()
            invariant
                0 <= i <= metas@.len(),
                ns_or_empty(opt_names(namespaces)).len() == 0,
                attr@ == attr_name@,
                metas_value(metas@, attr@, opt_names(namespace_allow_attrs)) == metas_value(metas@.skip(i as int), attr@, opt_names(namespace_allow_attrs)),
            decreases metas@.len() - i,
        {
            assert(metas@.skip(i as int)[0] == metas@[i as int]);
            assert(metas@.skip(i as int).drop_first() =~= metas@.skip(i + 1));
            match check_meta_available(&metas[i], namespace_allow_attrs) {
                Ok(_) => {},
                Err(e) => {
                    assert(metas@.skip(i as int).len() > 0);
                    assert(metas_value(metas@.skip(i as int), attr@, opt_names(namespace_allow_attrs)) == Err::<Option<Seq<char>>, Seq<char>>(e.message@));
                    return Err(e);
                },
            }
            if let Some(v) = get_macro_attr_value_from_meta(&metas[i], &attr) {
                assert(metas@.skip(i as int).len() > 0);
                assert(metas_value(metas@.skip(i as int), attr@, opt_names(namespace_allow_attrs)) == Ok::<Option<Seq<char>>, Seq<char>>(Some(v@)));
                return Ok(Some(v));
            }
            i += 1;
        }
        Ok(None)
    } else {
        let ns = namespaces.unwrap();
        match get_namespace_nested_metas_vec_from_metas(metas, ns) {
            Some(groups) => {
                let ghost g0 = metas_groups(metas@, names_view(ns@))[0];
                let r = get_macro_nested_attr_value_ident(groups[0], attr_name, None, namespace_allow_attrs);
                assert(nested_groups(g0, seq![]) =~= seq![g0]);
                r
            },
            None => Ok(None),
        }
    }
}

/// Looking up a pair in a single list, with no namespace and nothing to check, finds
/// the first such pair and never fails.
pub proof fn lemma_lookup_in_group(g: Seq<NestedMeta>, attr: Seq<char>)
    ensures
        nested_attr_value(g, attr, None, None) == Ok::<Option<Seq<char>>, Seq<char>>(group_value(g, attr)),
{
    assert(ns_or_empty(None) =~= Seq::<Seq<char>>::empty());
    assert(nested_groups(g, ns_or_empty(None)) =~= seq![g]);
    assert(group_allowed(g, None));
    assert(seq![g].drop_first() =~= Seq::<Seq<NestedMeta>>::empty());
    assert(groups_lookup(Seq::<Seq<NestedMeta>>::empty(), attr, None) == Ok::<Option<Seq<char>>, Seq<char>>(None));
    assert(seq![g][0] == g);
}

/// The value of the first pair `attr_name = "value"` in a list of entries.
pub fn value_in(group: &Vec<NestedMeta>, attr_name: &str) -> (r: Option<String>)
    ensures
        opt_str(r) == group_value(group@, attr_name@),
{
    proof {
        lemma_lookup_in_group(group@, attr_name@);
    }
    match get_macro_nested_attr_value_ident(group, attr_name, None, None) {
        Ok(v) => v,
        Err(_) => None,
    }
}

} // verus!
