# sql_orm

A small ORM whose logic is verified with Verus.

A model is defined by a struct with named fields and the arguments of an `orm`
attribute, for example

```
#[orm(table_name = "people", has_one("wallet", struct = "Wallet", foreign_key = "owner_id"))]
struct User { id: Option<u64>, #[orm(table_column_name = "full_name")] name: Option<String> }
```

`src/` expands such a definition into a model (`orm_struct::expand_definition`): the
table (`table_name`, or the plural snake-case form of the struct's name), the primary
key (`primary_key`, or `id`), the columns (a field's `table_column_name`, or its own
name) and the `belongs_to` / `has_one` associations, including those that go
`through` other associations. `orm::Orm` then answers lookups between field and column
names, reads records, and builds the select queries and join clauses of the
associations; `query::SelectQuery::to_sql` writes their SQL.

Layout:

- `src/meta.rs`, `src/derive_input.rs`: the definition's attribute syntax.
- `src/helper.rs`: finding namespaces such as `has_one(...)` and `name = "value"` pairs.
- `src/model.rs`: the model and the specification of the expansion.
- `src/orm_struct.rs`, `src/belongs_to.rs`, `src/has_one.rs`: the expansion.
- `src/inflect.rs`: word inflections from the Inflector crate.
- `src/query.rs`, `src/orm.rs`: queries, records and the model at run time.
- `src/laws.rs`: properties proved of the library as a whole.
- `app/`: token-level glue that reads a definition with syn and writes code with quote.

Not here: the insert, update and delete managers (`create`, `update_all`,
`delete_all`) of the SQL generator that the models were written against; that
generator is not available, so only selects are built. The SQL text of a select
(`SELECT * FROM t WHERE c = v LIMIT n`, a missing value written `NULL`, strings in
single quotes with quotes doubled, integers in decimal) is this library's own, stated in
`query::select_sql`; it could not be compared with that generator's output.
