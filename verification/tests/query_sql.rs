use sql_orm::derive_input::{Data, DeriveInput, DeriveInputHelper, Fields};
use sql_orm::model::Step;
use sql_orm::orm::Orm;
use sql_orm::orm_struct::expand_definition;

fn user_orm() -> Orm {
    let input = DeriveInput { ident: "User".to_string(), attrs: vec![], data: Data::Struct(Fields::Named(vec![])) };
    match expand_definition(&DeriveInputHelper::new(input), &vec![]) {
        Step::Done(m) => Orm::default(m),
        _ => panic!("the definition does not expand"),
    }
}

#[test]
fn query_sql_test_sql() {
    let sql: String = user_orm().query().to_sql();
    assert_eq!(sql, "SELECT * FROM users".to_string());
    let orm = user_orm();
    let sql: String = orm.query().to_sql();
    assert_eq!(sql, "SELECT * FROM users".to_string());
    let sql: String = Orm::default(match expand_definition(
        &DeriveInputHelper::new(DeriveInput { ident: "User".to_string(), attrs: vec![], data: Data::Struct(Fields::Named(vec![])) }),
        &vec![],
    ) {
        Step::Done(m) => m,
        _ => panic!("the definition does not expand"),
    })
    .query()
    .to_sql();
    assert_eq!(sql, "SELECT * FROM users".to_string());
}
