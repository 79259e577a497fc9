//! The `#[derive(Event)]` macro.

use crate::macros::syntax::{InputParts, InputPartsView, parse_input};
use crate::text::fill1;
use vstd::prelude::*;

verus! {

pub const NO_GENERICS: &'static str = "Event cannot be derived for generic types";

pub const EVENT_IMPL: &'static str = "impl rillet::event::Event for $0 {}
";

/// The marker's impl for a type without generic parameters.
pub open spec fn derived(input: InputPartsView) -> Result<Seq<char>, Seq<char>> {
    if input.generics.len() > 0 {
        Err(NO_GENERICS@)
    } else {
        Ok(crate::text::filled(EVENT_IMPL@, seq![input.name]))
    }
}

/// Derives the marker for a type whose parts are known.
pub fn derive(input: &InputParts) -> (result: Result<String, String>)
    ensures
        match result {
            Ok(text) => derived(input@) == Ok::<_, Seq<char>>(text@),
            Err(message) => derived(input@) == Err::<Seq<char>, _>(message@),
        },
{
    if input.generics.as_str().unicode_len() > 0 {
        Err(NO_GENERICS.to_owned())
    } else {
        Ok(fill1(EVENT_IMPL, input.name.as_str()))
    }
}

/// What `#[derive(Event)]` adds to an item, or what is wrong with it.
pub open spec fn expanded(item: Seq<char>) -> Result<Seq<char>, Seq<char>> {
    match crate::macros::syntax::input(item) {
        Err(message) => Err(message),
        Ok(input) => derived(input),
    }
}

/// Expands `#[derive(Event)]`.
pub fn expand(item: &str) -> (result: Result<String, String>)
    ensures
        match result {
            Ok(text) => expanded(item@) == Ok::<_, Seq<char>>(text@),
            Err(message) => expanded(item@) == Err::<Seq<char>, _>(message@),
        },
{
    match parse_input(item) {
        Err(message) => Err(message),
        Ok(input) => derive(&input),
    }
}

} // verus!
