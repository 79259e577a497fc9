//! The `#[derive(CheapClone)]` macro.
//!
//! The derive adds an impl with a `CheapClone` bound per field. The bounds are
//! also to be had one by one, in the order of the fields, for whoever places
//! each of them at its field.

use crate::macros::commands::COMMA;
use crate::macros::spawn::EMPTY;
use crate::macros::syntax::{
    GenericsParts, GenericsView, Shape, parse_field_types, parse_generics, parse_input,
};
use crate::text::{chars_of, each_joined, fill1, fill2, fill4, flatten};
use vstd::prelude::*;

verus! {

pub const NO_UNIONS: &'static str = "CheapClone cannot be derived for unions";

pub const BOUND: &'static str = "$0: rillet::view::CheapClone";

pub const WHERE: &'static str = "where $0";

pub const WHERE_AND: &'static str = "where $0, $1";

pub const WHERE_JOINED: &'static str = "where $0 $1";

pub const CHEAP_CLONE_IMPL: &'static str = "impl $0 rillet::view::CheapClone for $1 $2 $3 {}
";

/// The bound on a field's type.
pub open spec fn bound(ty: Seq<char>) -> Seq<char> {
    crate::text::filled(BOUND@, seq![ty])
}

/// The bound for each field, in order.
pub open spec fn bound_list(types: Seq<Seq<char>>) -> Seq<Seq<char>> {
    types.map_values(|ty: Seq<char>| bound(ty))
}

/// The bounds on all fields' types.
pub open spec fn bounds(types: Seq<Seq<char>>) -> Seq<char> {
    crate::text::joined(bound_list(types), COMMA@)
}

/// The where clause of the impl: the type's own predicates and the bounds.
pub open spec fn where_clause(predicates: Option<Seq<char>>, types: Seq<Seq<char>>) -> Seq<char> {
    match predicates {
        Some(predicates) => if predicates.len() == 0 || predicates.last() == ',' {
            crate::text::filled(WHERE_JOINED@, seq![predicates, bounds(types)])
        } else {
            crate::text::filled(WHERE_AND@, seq![predicates, bounds(types)])
        },
        None => if types.len() == 0 {
            EMPTY@
        } else {
            crate::text::filled(WHERE@, seq![bounds(types)])
        },
    }
}

/// The marker's impl, with a bound for each field's type; unions have none.
pub open spec fn derived(
    shape: Shape,
    name: Seq<char>,
    generics: GenericsView,
    types: Seq<Seq<char>>,
) -> Result<Seq<char>, Seq<char>> {
    if shape == Shape::Union {
        Err(NO_UNIONS@)
    } else {
        Ok(
            crate::text::filled(
                CHEAP_CLONE_IMPL@,
                seq![generics.params, name, generics.args, where_clause(generics.predicates, types)],
            ),
        )
    }
}

fn render_bound(ty: &String) -> (text: String)
    ensures
        text@ == bound(ty@),
{
    fill1(BOUND, ty.as_str())
}

fn render_where_clause(predicates: &Option<String>, types: &Vec<String>) -> (text: String)
    ensures
        text@ == where_clause(
            crate::macros::syntax::optional(*predicates),
            crate::text::views_of(types@),
        ),
{
    let bounds = each_joined(types, COMMA, render_bound, Ghost(|ty: Seq<char>| bound(ty)));
    match predicates {
        Some(predicates) => {
            let chars = chars_of(predicates.as_str());
            if chars.len() == 0 || chars[chars.len() - 1] == ',' {
                fill2(WHERE_JOINED, predicates.as_str(), bounds.as_str())
            } else {
                fill2(WHERE_AND, predicates.as_str(), bounds.as_str())
            }
        },
        None => if types.len() == 0 {
            EMPTY.to_owned()
        } else {
            fill1(WHERE, bounds.as_str())
        },
    }
}

/// Derives the marker for a type whose parts are known.
pub fn derive(shape: Shape, name: &str, generics: &GenericsParts, types: &Vec<String>) -> (result:
    Result<String, String>)
    ensures
        match result {
            Ok(text) => derived(shape, name@, generics@, crate::text::views_of(types@)) == Ok::<
                _,
                Seq<char>,
            >(text@),
            Err(message) => derived(shape, name@, generics@, crate::text::views_of(types@))
                == Err::<Seq<char>, _>(message@),
        },
{
    if shape == Shape::Union {
        return Err(NO_UNIONS.to_owned());
    }
    let clause = render_where_clause(&generics.predicates, types);
    Ok(
        fill4(
            CHEAP_CLONE_IMPL,
            generics.params.as_str(),
            name,
            generics.args.as_str(),
            clause.as_str(),
        ),
    )
}

/// The bounds that the impl for an item has behind the item's own predicates:
/// one for each field, in order.
pub fn field_bounds(item: &str) -> (list: Vec<String>)
    ensures
        crate::text::views_of(list@) == bound_list(
            crate::macros::syntax::field_types(item@).flatten(),
        ),
{
    let types = flatten(&parse_field_types(item));
    let ghost all = crate::text::views_of(types@);
    let mut list: Vec<String> = Vec::new();
    for i in 0..types.len()
        invariant
            all == crate::text::views_of(types@),
            crate::text::views_of(list@) == bound_list(all.take(i as int)),
    {
        let ghost before = crate::text::views_of(list@);
        list.push(render_bound(&types[i]));
        assert(crate::text::views_of(list@) =~= before.push(bound(all[i as int])));
        assert(bound_list(all.take(i + 1)) =~= bound_list(all.take(i as int)).push(
            bound(all[i as int]),
        ));
    }
    assert(all.take(all.len() as int) =~= all);
    list
}

/// What `#[derive(CheapClone)]` adds to an item, or what is wrong with it.
pub open spec fn expanded(item: Seq<char>) -> Result<Seq<char>, Seq<char>> {
    match crate::macros::syntax::input(item) {
        Err(message) => Err(message),
        Ok(input) => match crate::macros::syntax::generics(item) {
            Err(message) => Err(message),
            Ok(generics) => derived(
                input.shape,
                input.name,
                generics,
                crate::macros::syntax::field_types(item).flatten(),
            ),
        },
    }
}

/// Expands `#[derive(CheapClone)]`.
pub fn expand(item: &str) -> (result: Result<String, String>)
    ensures
        match result {
            Ok(text) => expanded(item@) == Ok::<_, Seq<char>>(text@),
            Err(message) => expanded(item@) == Err::<Seq<char>, _>(message@),
        },
{
    let input = match parse_input(item) {
        Ok(input) => input,
        Err(message) => {
            return Err(message);
        },
    };
    match parse_generics(item) {
        Err(message) => Err(message),
        Ok(generics) => derive(
            input.shape,
            input.name.as_str(),
            &generics,
            &flatten(&parse_field_types(item)),
        ),
    }
}

} // verus!
