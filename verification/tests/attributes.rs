use sql_orm::helper::{
    check_meta_available, get_macro_attr_value_ident, get_macro_nested_attr_value_ident,
    get_namespace_nested_metas_vec_from_metas, get_namespace_nested_metas_vec_from_nested_metas, value_in,
};
use sql_orm::inflect::{default_foreign_key, foreign_key_from_snake_case};
use sql_orm::meta::{get_macro_attr_value_from_meta, is_ident, Lit, Meta, NestedMeta, Path};

fn path(name: &str) -> Path {
    Path { leading_colon: false, segments: vec![name.to_string()] }
}

fn pair(name: &str, value: &str) -> NestedMeta {
    NestedMeta::Meta(Meta::NameValue(path(name), Lit::Str(value.to_string())))
}

fn list(name: &str, items: Vec<NestedMeta>) -> NestedMeta {
    NestedMeta::Meta(Meta::List(path(name), items))
}

fn names(v: &[&str]) -> Vec<String> {
    v.iter().map(|s| s.to_string()).collect()
}

#[test]
fn pair_values() {
    let m = Meta::NameValue(path("table_name"), Lit::Str("users".to_string()));
    assert_eq!(get_macro_attr_value_from_meta(&m, &"table_name".to_string()), Some("users".to_string()));
    assert_eq!(get_macro_attr_value_from_meta(&m, &"other".to_string()), None);
    let not_str = Meta::NameValue(path("table_name"), Lit::Other("3".to_string()));
    assert_eq!(get_macro_attr_value_from_meta(&not_str, &"table_name".to_string()), None);
    let qualified = Path { leading_colon: true, segments: vec!["table_name".to_string()] };
    assert!(!is_ident(&qualified, &"table_name".to_string()));
    assert!(is_ident(&path("x"), &"x".to_string()));
}

#[test]
fn first_pair_wins() {
    let g = vec![NestedMeta::Lit(Lit::Str("w".to_string())), pair("struct", "A"), pair("struct", "B")];
    assert_eq!(value_in(&g, "struct"), Some("A".to_string()));
    assert_eq!(value_in(&g, "through"), None);
}

#[test]
fn namespace_groups() {
    let args = vec![
        list("has_one", vec![pair("a", "1")]),
        list("belongs_to", vec![pair("b", "2")]),
        list("has_one", vec![list("inner", vec![pair("c", "3")])]),
    ];
    let g = get_namespace_nested_metas_vec_from_nested_metas(&args, &names(&["has_one"])).unwrap();
    assert_eq!(g.len(), 2);
    let g = get_namespace_nested_metas_vec_from_nested_metas(&args, &names(&["has_one", "inner"])).unwrap();
    assert_eq!(g.len(), 1);
    assert!(get_namespace_nested_metas_vec_from_nested_metas(&args, &names(&["nothing"])).is_none());
    let all = get_namespace_nested_metas_vec_from_nested_metas(&args, &names(&[])).unwrap();
    assert_eq!(all.len(), 1);
    assert_eq!(all[0].len(), 3);
    let metas = vec![Meta::List(path("orm"), vec![pair("x", "1")]), Meta::Path(path("orm"))];
    assert_eq!(get_namespace_nested_metas_vec_from_metas(&metas, &names(&["orm"])).unwrap().len(), 1);
    assert!(get_namespace_nested_metas_vec_from_metas(&metas, &names(&[])).is_none());
}

#[test]
fn checked_lookups() {
    let allow = names(&["a", "b"]);
    assert!(check_meta_available(&Meta::NameValue(path("a"), Lit::Str("1".to_string())), Some(&allow)).is_ok());
    assert!(check_meta_available(&Meta::Path(path("zzz")), Some(&allow)).is_ok());
    let err = check_meta_available(&Meta::NameValue(path("c"), Lit::Str("1".to_string())), Some(&allow)).err().unwrap();
    assert_eq!(err.message, "Support Macro Attr List: [\"a\", \"b\"]");
    // the wanted pair comes first, but the group holds an unaccepted pair
    let g = vec![pair("a", "1"), pair("c", "2")];
    assert!(get_macro_nested_attr_value_ident(&g, "a", None, Some(&allow)).is_err());
    assert_eq!(get_macro_nested_attr_value_ident(&g, "a", None, None).ok().unwrap(), Some("1".to_string()));
    // item by item: the wanted pair comes before the unaccepted one
    let metas = vec![
        Meta::NameValue(path("a"), Lit::Str("1".to_string())),
        Meta::NameValue(path("c"), Lit::Str("2".to_string())),
    ];
    assert_eq!(get_macro_attr_value_ident(&metas, "a", None, Some(&allow)).ok().unwrap(), Some("1".to_string()));
    assert!(get_macro_attr_value_ident(&metas, "b", None, Some(&allow)).is_err());
}

#[test]
fn lookups_in_namespaces() {
    let metas = vec![
        Meta::List(path("orm"), vec![pair("table_column_name", "first")]),
        Meta::List(path("orm"), vec![pair("table_column_name", "second")]),
    ];
    assert_eq!(
        get_macro_attr_value_ident(&metas, "table_column_name", Some(&names(&["orm"])), None).ok().unwrap(),
        Some("first".to_string())
    );
    let args = vec![list("orm", vec![pair("x", "1")]), list("orm", vec![pair("y", "2")])];
    assert_eq!(
        get_macro_nested_attr_value_ident(&args, "y", Some(&names(&["orm"])), None).ok().unwrap(),
        Some("2".to_string())
    );
}

#[test]
fn foreign_keys() {
    assert_eq!(default_foreign_key("BlogUser"), "blog_user_id");
    assert_eq!(default_foreign_key("User"), "user_id");
    assert_eq!(foreign_key_from_snake_case("team"), "team_id");
}
