//! Select queries on a model's table and their SQL text.
use vstd::prelude::*;
use vstd::string::*;

verus! {

/// A value that a condition compares a column with.
pub enum Value {
    Null,
    Bool(bool),
    Int(i64),
    UInt(u64),
    Str(String),
}

impl Value {
    /// A copy of the value.
    pub fn copy(&self) -> (r: Value)
        ensures
            r == *self,
    {
        match self {
            Value::Null => Value::Null,
            Value::Bool(b) => Value::Bool(*b),
            Value::Int(i) => Value::Int(*i),
            Value::UInt(u) => Value::UInt(*u),
            Value::Str(s) => Value::Str(s.clone()),
        }
    }
}

/// The text of one decimal digit.
pub open spec fn digit_text(d: nat) -> Seq<char> {
    if d == 0 { "0"@ }
    else if d == 1 { "1"@ }
    else if d == 2 { "2"@ }
    else if d == 3 { "3"@ }
    else if d == 4 { "4"@ }
    else if d == 5 { "5"@ }
    else if d == 6 { "6"@ }
    else if d == 7 { "7"@ }
    else if d == 8 { "8"@ }
    else { "9"@ }
}

/// The decimal text of a natural number, without leading zeros.
pub open spec fn decimal(n: nat) -> Seq<char>
    decreases n,
{
    if n < 10 {
        digit_text(n)
    } else {
        decimal(n / 10) + digit_text(n % 10)
    }
}

/// A string as an SQL literal: in single quotes, each quote in it doubled.
pub open spec fn quoted(s: Seq<char>) -> Seq<char> {
    "'"@ + escaped(s) + "'"@
}

/// A string with each single quote doubled.
pub open spec fn escaped(s: Seq<char>) -> Seq<char>
    decreases s.len(),
{
    if s.len() == 0 {
        seq![]
    } else {
        escaped(s.drop_last()) + if s.last() == '\'' { seq!['\'', '\''] } else { seq![s.last()] }
    }
}

/// The SQL text of a value.
pub open spec fn value_sql(v: Value) -> Seq<char> {
    match v {
        Value::Null => "NULL"@,
        Value::Bool(b) => if b { "true"@ } else { "false"@ },
        Value::Int(i) => if i < 0 { "-"@ + decimal((-i) as nat) } else { decimal(i as nat) },
        Value::UInt(u) => decimal(u as nat),
        Value::Str(s) => quoted(s@),
    }
}

/// Appends the text of one decimal digit.
fn push_digit(s: &mut String, d: u64)
    requires
        d < 10,
    ensures
        final(s)@ == old(s)@ + digit_text(d as nat),
{
    if d == 0 { s.append("0") }
    else if d == 1 { s.append("1") }
    else if d == 2 { s.append("2") }
    else if d == 3 { s.append("3") }
    else if d == 4 { s.append("4") }
    else if d == 5 { s.append("5") }
    else if d == 6 { s.append("6") }
    else if d == 7 { s.append("7") }
    else if d == 8 { s.append("8") }
    else { s.append("9") }
}

/// Appends the decimal text of a number.
pub fn push_decimal(s: &mut String, n: u64)
    ensures
        final(s)@ == old(s)@ + decimal(n as nat),
    decreases n,
{
    if n >= 10 {
        push_decimal(s, n / 10);
    }
    push_digit(s, n % 10);
    proof {
        if n >= 10 {
            assert(old(s)@ + decimal((n / 10) as nat) + digit_text((n % 10) as nat) =~= old(s)@ + decimal(n as nat));
        } else {
            assert(n % 10 == n);
        }
    }
}

/// Appends a string as an SQL literal.
fn push_quoted(s: &mut String, text: &String)
    ensures
        final(s)@ == old(s)@ + quoted(text@),
{
    s.append("'");
    let ghost start = s@;
    let t = text.as_str();
    let n = t.unicode_len();
    let mut i: usize = 0;
    while i < n
        invariant
            0 <= i <= n,
            n == text@.len(),
            t@ == text@,
            s@ == start + escaped(text@.take(i as int)),
        decreases n - i,
    {
        let c = t.get_char(i);
        assert(text@.take(i + 1).drop_last() =~= text@.take(i as int));
        assert(text@.take(i + 1).last() == c);
        if c == '\'' {
            s.append("''");
            assert("''"@ =~= seq!['\'', '\'']) by {
                reveal_strlit("''");
            }
        } else {
            let one = t.substring_char(i, i + 1);
            assert(one@ =~= seq![c]);
            s.append(one);
        }
        assert(s@ =~= start + escaped(text@.take(i + 1)));
        i += 1;
    }
    assert(text@.take(n as int) =~= text@);
    s.append("'");
    assert(s@ =~= old(s)@ + quoted(text@));
}

/// Appends the SQL text of a value.
pub fn push_value_sql(s: &mut String, v: &Value)
    ensures
        final(s)@ == old(s)@ + value_sql(*v),
{
    match v {
        Value::Null => s.append("NULL"),
        Value::Bool(b) => if *b { s.append("true") } else { s.append("false") },
        Value::Int(i) => {
            if *i < 0 {
                s.append("-");
                let m: u64 = ((-(*i + 1)) as u64) + 1;
                assert(m as nat == (-*i) as nat);
                push_decimal(s, m);
            } else {
                push_decimal(s, *i as u64);
            }
        },
        Value::UInt(u) => push_decimal(s, *u),
        Value::Str(text) => push_quoted(s, text),
    }
}

/// A condition that a column equals a value.
pub struct Condition {
    pub column: String,
    pub value: Value,
}

/// A select of all columns of a table, with conditions and a limit.
pub struct SelectQuery {
    pub table_name: String,
    pub conditions: Vec<Condition>,
    pub limit: Option<u64>,
}

pub struct QueryView {
    pub table_name: Seq<char>,
    pub conditions: Seq<(Seq<char>, Value)>,
    pub limit: Option<u64>,
}

impl View for SelectQuery {
    type V = QueryView;

    open spec fn view(&self) -> QueryView {
        QueryView {
            table_name: self.table_name@,
            conditions: self.conditions@.map_values(|c: Condition| (c.column@, c.value)),
            limit: self.limit,
        }
    }
}

/// The parts joined by a separator.
pub open spec fn join(parts: Seq<Seq<char>>, sep: Seq<char>) -> Seq<char>
    decreases parts.len(),
{
    if parts.len() == 0 {
        seq![]
    } else if parts.len() == 1 {
        parts[0]
    } else {
        join(parts.drop_last(), sep) + sep + parts.last()
    }
}

/// The SQL text of a condition: `column = value`.
pub open spec fn condition_sql(c: (Seq<char>, Value)) -> Seq<char> {
    c.0 + " = "@ + value_sql(c.1)
}

/// The SQL text of a select: `SELECT * FROM table`, then ` WHERE ` and the conditions
/// joined by ` AND `, then ` LIMIT n`.
pub open spec fn select_sql(q: QueryView) -> Seq<char> {
    "SELECT * FROM "@ + q.table_name + (if q.conditions.len() > 0 {
        " WHERE "@ + join(q.conditions.map_values(|c: (Seq<char>, Value)| condition_sql(c)), " AND "@)
    } else {
        seq![]
    }) + match q.limit {
        Some(n) => " LIMIT "@ + decimal(n as nat),
        None => seq![],
    }
}

impl SelectQuery {
    /// A select of all rows of a table.
    pub fn new(table_name: String) -> (r: SelectQuery)
        ensures
            r@ == (QueryView { table_name: table_name@, conditions: seq![], limit: None }),
    {
        let r = SelectQuery { table_name, conditions: Vec::new(), limit: None };
        assert(r@.conditions =~= Seq::<(Seq<char>, Value)>::empty());
        r
    }

    /// Adds the condition that `column` equals `value`.
    pub fn where_eq(&mut self, column: String, value: Value)
        ensures
            final(self)@ == (QueryView { conditions: old(self)@.conditions.push((column@, value)), ..old(self)@ }),
    {
        let ghost before = self@.conditions;
        self.conditions.push(Condition { column, value });
        assert(self@.conditions =~= before.push((column@, value)));
    }

    /// Limits the number of rows.
    pub fn limit(&mut self, n: u64)
        ensures
            final(self)@ == (QueryView { limit: Some(n), ..old(self)@ }),
    {
        self.limit = Some(n);
        assert(self@.conditions =~= old(self)@.conditions);
    }

    /// The SQL text of the query, as `select_sql` says.
    pub fn to_sql(&self) -> (r: String)
        ensures
            r@ == select_sql(self@),
    {
        let ghost q = self@;
        let ghost parts = q.conditions.map_values(|c: (Seq<char>, Value)| condition_sql(c));
        let mut s = String::from_str("SELECT * FROM ");
        s.append(self.table_name.as_str());
        let ghost head = s@;
        if self.conditions.len() > 0 {
            s.append(" WHERE ");
            let ghost start = s@;
            let mut i: usize = 0;
            assert(parts.take(0) =~= Seq::<Seq<char>>::empty());
            while i < self.conditions.len()
                invariant
                    0 <= i <= self.conditions@.len(),
                    q == self@,
                    parts == q.conditions.map_values(|c: (Seq<char>, Value)| condition_sql(c)),
                    s@ == start + join(parts.take(i as int), " AND "@),
                decreases self.conditions@.len() - i,
            {
                let ghost before = s@;
                assert(parts.take(i + 1).drop_last() =~= parts.take(i as int));
                assert(parts.take(i + 1).last() == parts[i as int]);
                assert(parts[i as int] == condition_sql(q.conditions[i as int]));
                if i > 0 {
                    s.append(" AND ");
                }
                let c = &self.conditions[i];
                s.append(c.column.as_str());
                s.append(" = ");
                push_value_sql(&mut s, &c.value);
                assert(s@ =~= start + join(parts.take(i + 1), " AND "@));
                i += 1;
            }
            assert(parts.take(parts.len() as int) =~= parts);
        }
        let ghost mid = s@;
        match self.limit {
            Some(n) => {
                s.append(" LIMIT ");
                push_decimal(&mut s, n);
            },
            None => {},
        }
        assert(s@ =~= select_sql(q));
        s
    }
}

} // verus!
