use sql_orm::derive_input::{Data, DeriveInput, DeriveInputHelper, Field, Fields};
use sql_orm::meta::{Lit, Meta, NestedMeta, Path};
use sql_orm::model::Step;
use sql_orm::orm::Orm;
use sql_orm::orm_struct::expand_definition;
use sql_orm::query::Value;

fn path(name: &str) -> Path {
    Path { leading_colon: false, segments: vec![name.to_string()] }
}

fn string(value: &str) -> NestedMeta {
    NestedMeta::Lit(Lit::Str(value.to_string()))
}

fn pair(name: &str, value: &str) -> NestedMeta {
    NestedMeta::Meta(Meta::NameValue(path(name), Lit::Str(value.to_string())))
}

fn list(name: &str, items: Vec<NestedMeta>) -> NestedMeta {
    NestedMeta::Meta(Meta::List(path(name), items))
}

fn model(name: &str, fields: &[&str], args: Vec<NestedMeta>) -> Orm {
    let input = DeriveInput {
        ident: name.to_string(),
        attrs: vec![],
        data: Data::Struct(Fields::Named(
            fields.iter().map(|f| Field { ident: f.to_string(), attrs: vec![] }).collect(),
        )),
    };
    match expand_definition(&DeriveInputHelper::new(input), &args) {
        Step::Done(m) => Orm::default(m),
        _ => panic!("the definition does not expand"),
    }
}

#[test]
fn association_sql_test_sql() {
    let user_orm = model(
        "User",
        &["id"],
        vec![list("has_one", vec![string("wallet"), pair("struct", "Wallet"), pair("foreign_key", "user_id")])],
    );
    let wallet_orm = model(
        "Wallet",
        &["user_id"],
        vec![list("belongs_to", vec![string("user"), pair("struct", "User"), pair("foreign_key", "user_id")])],
    );

    let mut user = user_orm.new_record();
    assert!(user.set("id", Some(Value::UInt(1))));

    let mut wallet = wallet_orm.new_record();
    assert!(wallet.set("user_id", Some(Value::UInt(2))));

    let sql: String = wallet_orm.belongs_to_query("user", &wallet, &user_orm).to_sql();
    assert_eq!(sql, "SELECT * FROM users WHERE id = 2 LIMIT 1".to_string());

    let sql: String = user_orm.has_one_query("wallet", &user, &wallet_orm).to_sql();
    assert_eq!(sql, "SELECT * FROM wallets WHERE user_id = 1 LIMIT 1".to_string());
}

#[test]
fn association_without_value_compares_with_null() {
    let user_orm = model("User", &["id"], vec![list("has_one", vec![string("wallet"), pair("struct", "Wallet")])]);
    let wallet_orm = model("Wallet", &["user_id"], vec![list("belongs_to", vec![string("user"), pair("struct", "User")])]);
    let user = user_orm.new_record();
    let wallet = wallet_orm.new_record();
    assert_eq!(wallet_orm.belongs_to_query("user", &wallet, &user_orm).to_sql(), "SELECT * FROM users WHERE id = NULL LIMIT 1");
    assert_eq!(user_orm.has_one_query("wallet", &user, &wallet_orm).to_sql(), "SELECT * FROM wallets WHERE user_id = NULL LIMIT 1");
}

#[test]
fn association_default_foreign_keys() {
    let user_orm = model("BlogUser", &["id"], vec![list("has_one", vec![string("wallet"), pair("struct", "Wallet")])]);
    let wallet_orm = model("Wallet", &["blog_user_id"], vec![list("belongs_to", vec![string("owner"), pair("struct", "BlogUser")])]);
    let mut wallet = wallet_orm.new_record();
    assert!(wallet.set("blog_user_id", Some(Value::Int(-7))));
    assert_eq!(
        wallet_orm.belongs_to_query("owner", &wallet, &user_orm).to_sql(),
        "SELECT * FROM blog_users WHERE id = -7 LIMIT 1"
    );
    assert_eq!(
        user_orm.has_one_join_string("wallet", &wallet_orm),
        "INNER JOIN blog_users ON wallets.blog_user_id = blog_users.id"
    );
    assert_eq!(
        wallet_orm.belongs_to_join_string("owner", &user_orm),
        "INNER JOIN wallets ON blog_users.id = wallets.blog_user_id"
    );
}

#[test]
fn association_values_render_as_sql() {
    let user_orm = model("User", &["id", "name"], vec![list("has_one", vec![string("wallet"), pair("struct", "Wallet"), pair("foreign_key", "owner")])]);
    let wallet_orm = model("Wallet", &["owner"], vec![]);
    let mut user = user_orm.new_record();
    assert!(user.set("id", Some(Value::Str("it's".to_string()))));
    assert!(!user.set("missing", Some(Value::Bool(true))));
    assert_eq!(
        user_orm.has_one_query("wallet", &user, &wallet_orm).to_sql(),
        "SELECT * FROM wallets WHERE owner = 'it''s' LIMIT 1"
    );
    assert!(user.set("id", Some(Value::Bool(true))));
    assert_eq!(
        user_orm.has_one_query("wallet", &user, &wallet_orm).to_sql(),
        "SELECT * FROM wallets WHERE owner = true LIMIT 1"
    );
    assert!(user.set("id", Some(Value::UInt(18446744073709551615))));
    assert_eq!(
        user_orm.has_one_query("wallet", &user, &wallet_orm).to_sql(),
        "SELECT * FROM wallets WHERE owner = 18446744073709551615 LIMIT 1"
    );
    assert!(user.set("id", Some(Value::Int(i64::MIN))));
    assert_eq!(
        user_orm.has_one_query("wallet", &user, &wallet_orm).to_sql(),
        "SELECT * FROM wallets WHERE owner = -9223372036854775808 LIMIT 1"
    );
}

#[test]
fn association_through_join_string() {
    // A has_one B through the association "b_link" of the struct Link.
    let a_orm = model(
        "Account",
        &["id"],
        vec![
            list("has_one", vec![string("profile"), pair("struct", "Profile"), pair("through", "link")]),
            list("has_one", vec![string("link"), pair("struct", "Link")]),
        ],
    );
    let link_orm = model("Link", &["account_id"], vec![]);
    let joins = vec!["INNER JOIN links ON profiles.id = links.profile_id".to_string()];
    assert_eq!(
        a_orm.through_join_string("profile", &joins, &link_orm),
        "INNER JOIN links ON profiles.id = links.profile_id INNER JOIN accounts ON links.account_id = accounts.id"
    );
}
