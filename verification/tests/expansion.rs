use sql_orm::derive_input::{Data, DeriveInput, DeriveInputHelper, Field, Fields};
use sql_orm::meta::{Lit, Meta, NestedMeta, Path};
use sql_orm::model::{AssociationKind, OrmModel, Step};
use sql_orm::orm::Orm;
use sql_orm::orm_struct::expand_definition;

fn path(name: &str) -> Path {
    Path { leading_colon: false, segments: vec![name.to_string()] }
}

fn string(value: &str) -> NestedMeta {
    NestedMeta::Lit(Lit::Str(value.to_string()))
}

fn pair(name: &str, value: &str) -> NestedMeta {
    NestedMeta::Meta(Meta::NameValue(path(name), Lit::Str(value.to_string())))
}

fn list(name: &str, items: Vec<NestedMeta>) -> NestedMeta {
    NestedMeta::Meta(Meta::List(path(name), items))
}

fn field(name: &str, rename: Option<&str>) -> Field {
    let attrs = match rename {
        Some(r) => vec![Meta::List(path("orm"), vec![pair("table_column_name", r)])],
        None => vec![],
    };
    Field { ident: name.to_string(), attrs }
}

fn definition(name: &str, fields: Vec<Field>) -> DeriveInputHelper {
    DeriveInputHelper::new(DeriveInput { ident: name.to_string(), attrs: vec![], data: Data::Struct(Fields::Named(fields)) })
}

fn expand_ok(helper: &DeriveInputHelper, args: &Vec<NestedMeta>) -> OrmModel {
    match expand_definition(helper, args) {
        Step::Done(m) => m,
        Step::Failed(e) => panic!("expansion failed: {}", e.message),
        Step::Aborted => panic!("expansion aborted"),
    }
}

fn expand_err(helper: &DeriveInputHelper, args: &Vec<NestedMeta>) -> String {
    match expand_definition(helper, args) {
        Step::Failed(e) => e.message,
        _ => panic!("expansion did not fail"),
    }
}

#[test]
fn default_table_and_primary_key() {
    let m = expand_ok(&definition("BlogPost", vec![field("id", None)]), &vec![]);
    assert_eq!(m.struct_name, "BlogPost");
    assert_eq!(m.table_name, "blog_posts");
    assert_eq!(m.primary_key, "id");
    let orm = Orm::default(m);
    assert_eq!(orm.table_name(), "blog_posts");
    assert_eq!(orm.primary_key(), "id");
    assert_eq!(orm.id(), "id");
}

#[test]
fn table_name_and_primary_key_from_arguments() {
    let args = vec![pair("table_name", "people"), pair("primary_key", "uuid"), pair("locking_column", "version")];
    let m = expand_ok(&definition("User", vec![field("uuid", None)]), &args);
    assert_eq!(m.table_name, "people");
    assert_eq!(m.primary_key, "uuid");
}

#[test]
fn unsupported_argument_is_an_error() {
    let args = vec![pair("table_name", "people"), pair("tablename", "x")];
    assert_eq!(
        expand_err(&definition("User", vec![]), &args),
        "Support Macro Attr List: [\"table_name\", \"primary_key\", \"locking_column\"]"
    );
}

#[test]
fn not_a_struct_is_an_error() {
    let helper = DeriveInputHelper::new(DeriveInput { ident: "E".to_string(), attrs: vec![], data: Data::Enum });
    assert_eq!(expand_err(&helper, &vec![]), "Must Define On Struct, Not Allow On Enum Or Union");
    let helper = DeriveInputHelper::new(DeriveInput { ident: "T".to_string(), attrs: vec![], data: Data::Struct(Fields::Unnamed) });
    assert_eq!(expand_err(&helper, &vec![]), "Must Define On Struct, Not Allow On Enum Or Union");
    assert!(helper.get_fields().is_err());
}

#[test]
fn renamed_columns_and_lookups() {
    let m = expand_ok(&definition("User", vec![field("id", None), field("desc", Some("description")), field("name", None)]), &vec![]);
    let orm = Orm::default(m);
    assert_eq!(orm.attr_names(), vec!["id".to_string(), "desc".to_string(), "name".to_string()]);
    assert_eq!(orm.table_column_names(), vec!["id".to_string(), "description".to_string(), "name".to_string()]);
    assert_eq!(orm.attr_name_to_table_column_name("desc").ok().unwrap(), "description");
    assert_eq!(orm.table_column_name_to_attr_name("description").ok().unwrap(), "desc");
    // the two lookups undo each other
    for a in orm.attr_names() {
        let c = orm.attr_name_to_table_column_name(&a).ok().unwrap();
        assert_eq!(orm.table_column_name_to_attr_name(&c).ok().unwrap(), a);
    }
    assert_eq!(
        orm.attr_name_to_table_column_name("description").err().unwrap().message(),
        "Error: attr_name_to_table_column_name: description Not Found"
    );
    assert_eq!(
        orm.table_column_name_to_attr_name("desc").err().unwrap().message(),
        "Error: table_column_name_to_attr_name: desc Not Found"
    );
}

#[test]
fn only_the_first_orm_attribute_renames() {
    let f = Field {
        ident: "title".to_string(),
        attrs: vec![
            Meta::List(path("orm"), vec![pair("other", "x")]),
            Meta::List(path("orm"), vec![pair("table_column_name", "heading")]),
        ],
    };
    let m = expand_ok(&definition("Post", vec![f]), &vec![]);
    assert_eq!(Orm::default(m).table_column_names(), vec!["title".to_string()]);
}

#[test]
fn belongs_to_without_struct_is_an_error() {
    let args = vec![list("belongs_to", vec![string("user"), pair("foreign_key", "user_id")])];
    assert_eq!(expand_err(&definition("Wallet", vec![field("user_id", None)]), &args), "Error: Loss Attr struct");
}

#[test]
fn has_one_without_struct_is_an_error() {
    let args = vec![list("has_one", vec![string("wallet")])];
    assert_eq!(expand_err(&definition("User", vec![field("id", None)]), &args), "Error: loss attr struct");
}

#[test]
fn associations_in_order() {
    let args = vec![
        list("has_one", vec![string("wallet"), pair("struct", "Wallet")]),
        list("belongs_to", vec![string("team"), pair("struct", "SportsTeam")]),
        list("belongs_to", vec![pair("struct", "Ignored")]),
    ];
    let m = expand_ok(&definition("User", vec![field("id", None)]), &args);
    assert_eq!(m.associations.len(), 2);
    assert!(m.associations[0].kind == AssociationKind::BelongsTo);
    assert_eq!(m.associations[0].name, "team");
    assert_eq!(m.associations[0].struct_name, "SportsTeam");
    assert_eq!(m.associations[0].foreign_key, "sports_team_id");
    assert!(m.associations[1].kind == AssociationKind::HasOne);
    assert_eq!(m.associations[1].name, "wallet");
    assert_eq!(m.associations[1].foreign_key, "user_id");
}

#[test]
fn associations_declared_on_the_struct() {
    let helper = DeriveInputHelper::new(DeriveInput {
        ident: "Wallet".to_string(),
        attrs: vec![Meta::List(path("belongs_to"), vec![string("user"), pair("struct", "User")])],
        data: Data::Struct(Fields::Named(vec![field("user_id", None)])),
    });
    let m = expand_ok(&helper, &vec![]);
    assert_eq!(m.associations.len(), 1);
    assert_eq!(m.associations[0].foreign_key, "user_id");
}

#[test]
fn empty_association_aborts() {
    let args = vec![list("belongs_to", vec![])];
    assert!(matches!(expand_definition(&definition("W", vec![]), &args), Step::Aborted));
    let args = vec![list("has_one", vec![])];
    assert!(matches!(expand_definition(&definition("W", vec![]), &args), Step::Aborted));
}

#[test]
fn cyclic_through_aborts() {
    let args = vec![
        list("has_one", vec![string("a"), pair("struct", "A"), pair("through", "b")]),
        list("has_one", vec![string("b"), pair("struct", "B"), pair("through", "a")]),
    ];
    assert!(matches!(expand_definition(&definition("W", vec![]), &args), Step::Aborted));
}

#[test]
fn through_chain_steps() {
    let args = vec![
        list("has_one", vec![string("country"), pair("struct", "Country"), pair("through", "city")]),
        list("has_one", vec![string("city"), pair("struct", "City"), pair("through", "address"), pair("source", "town")]),
        list("has_one", vec![string("address"), pair("struct", "Address"), pair("foreign_key", "owner_id")]),
    ];
    let m = expand_ok(&definition("Person", vec![field("id", None)]), &args);
    assert_eq!(m.through_associations.len(), 2);
    let t = &m.through_associations[0];
    assert_eq!(t.name, "country");
    assert_eq!(t.struct_name, "Country");
    assert_eq!(t.steps.len(), 2);
    assert_eq!(t.steps[0].struct_name, "City");
    assert_eq!(t.steps[0].association_name, "country");
    assert_eq!(t.steps[1].struct_name, "Address");
    assert_eq!(t.steps[1].association_name, "town");
    assert_eq!(t.last_struct_name, "Address");
    assert_eq!(t.last_foreign_key, "owner_id");
    let t = &m.through_associations[1];
    assert_eq!(t.name, "city");
    assert_eq!(t.steps.len(), 1);
    assert_eq!(t.steps[0].association_name, "town");
    // "address" has no through: a plain has_one
    assert_eq!(m.associations.len(), 1);
    assert_eq!(m.associations[0].name, "address");
    assert_eq!(m.associations[0].foreign_key, "owner_id");
}

#[test]
fn through_to_an_unknown_name_is_plain() {
    let args = vec![list("has_one", vec![string("wallet"), pair("struct", "Wallet"), pair("through", "nowhere")])];
    let m = expand_ok(&definition("User", vec![field("id", None)]), &args);
    assert_eq!(m.through_associations.len(), 0);
    assert_eq!(m.associations.len(), 1);
    assert_eq!(m.associations[0].foreign_key, "user_id");
}

#[test]
fn through_chain_without_struct_is_an_error() {
    let args = vec![
        list("has_one", vec![string("a"), pair("struct", "A"), pair("through", "b")]),
        list("has_one", vec![string("b"), pair("foreign_key", "x")]),
    ];
    assert_eq!(expand_err(&definition("W", vec![]), &args), "Error: loss attr struct");
}

#[test]
fn new_record_reads_nothing_and_set_then_get() {
    let orm = Orm::default(expand_ok(&definition("User", vec![field("id", None), field("name", None)]), &vec![]));
    let mut r = orm.new_record();
    assert!(r.get_json_value_from_attr_name__("id").is_none());
    assert!(r.get_json_value_from_attr_name__("name").is_none());
    assert!(r.set("name", Some(sql_orm::query::Value::UInt(5))));
    assert!(matches!(r.get_json_value_from_attr_name__("name"), Some(sql_orm::query::Value::UInt(5))));
    assert!(r.get_json_value_from_attr_name__("id").is_none());
    assert!(r.get_json_value_from_attr_name__("nothing").is_none());
}

#[test]
fn field_lookup_by_position_with_a_shared_column() {
    let m = expand_ok(&definition("User", vec![field("a", Some("same")), field("b", Some("same"))]), &vec![]);
    let orm = Orm::default(m);
    let attrs = orm.attr_names();
    let columns = orm.table_column_names();
    for i in 0..attrs.len() {
        assert_eq!(orm.attr_name_to_table_column_name(&attrs[i]).ok().unwrap(), columns[i]);
    }
    // with a shared column, the field found for it is the first
    assert_eq!(orm.table_column_name_to_attr_name("same").ok().unwrap(), "a");
}
