//! The word inflections that naming rests on, from the Inflector crate.
use vstd::prelude::*;
use vstd::string::*;

verus! {

/// Names what `inflector::cases::snakecase::to_snake_case` returns for a string.
pub uninterp spec fn snake_case(s: Seq<char>) -> Seq<char>;

/// Names what `inflector::cases::tablecase::to_table_case` returns for a string.
pub uninterp spec fn table_case(s: Seq<char>) -> Seq<char>;

/// Calls `inflector::cases::snakecase::to_snake_case` (`"FooBar"` gives `"foo_bar"`);
/// its result is named `snake_case` of the argument and nothing more is claimed of it.
#[verifier::external_body]
pub(crate) fn to_snake_case(s: &str) -> (r: String)
    ensures
        r@ == snake_case(s@),
{
    inflector::cases::snakecase::to_snake_case(s)
}

/// Calls `inflector::cases::tablecase::to_table_case` (`"User"` gives `"users"`);
/// its result is named `table_case` of the argument and nothing more is claimed of it.
#[verifier::external_body]
pub(crate) fn to_table_case(s: &str) -> (r: String)
    ensures
        r@ == table_case(s@),
{
    inflector::cases::tablecase::to_table_case(s)
}

/// The default foreign key that refers to a struct, from the snake-case form of its name.
pub open spec fn foreign_key_of(snake_name: Seq<char>) -> Seq<char> {
    snake_name + "_id"@
}

/// Appends `_id` to the snake-case form of a struct's name: the foreign key that refers
/// to that struct unless one is named.
pub fn foreign_key_from_snake_case(snake_name: &str) -> (r: String)
    ensures
        r@ == foreign_key_of(snake_name@),
{
    let mut r = String::from_str(snake_name);
    r.append("_id");
    r
}

/// The default foreign key that refers to the struct named `struct_name`.
pub fn default_foreign_key(struct_name: &str) -> (r: String)
    ensures
        r@ == foreign_key_of(snake_case(struct_name@)),
{
    let snake = to_snake_case(struct_name);
    foreign_key_from_snake_case(snake.as_str())
}

} // verus!
