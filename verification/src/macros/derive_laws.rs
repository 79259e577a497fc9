//! What holds of what the derives add to every type.

use crate::macros::cheap_clone::{BOUND, CHEAP_CLONE_IMPL, WHERE, WHERE_AND, WHERE_JOINED};
use crate::macros::event::EVENT_IMPL;
use crate::macros::syntax::{GenericsView, InputPartsView, Shape};
use vstd::prelude::*;

verus! {

/// The bounds demand the marker of every field's type, in their order.
pub proof fn law_bound_of_each_field(types: Seq<Seq<char>>)
    ensures
        crate::macros::cheap_clone::bounds(types) == crate::text::joined(types.map_values(|ty: Seq<char>| ty + ": rillet::view::CheapClone"@), ", "@),
{
    let list = crate::macros::cheap_clone::bound_list(types);
    let spelled = types.map_values(|ty: Seq<char>| ty + ": rillet::view::CheapClone"@);
    assert forall|i: int| 0 <= i < types.len() implies #[trigger] list[i] == spelled[i] by {
        let args = seq![types[i]];
        lemma_text_bound(args);
    }
    assert(list =~= spelled);
}

/// The type's own predicates stay in front of the bounds, with a comma between
/// them; without predicates the bounds stand alone, and without either there
/// is no where clause.
pub proof fn law_where_clause(predicates: Option<Seq<char>>, types: Seq<Seq<char>>)
    ensures
        crate::macros::cheap_clone::where_clause(predicates, types) == (match predicates { Some(own) => if own.len() == 0 || own.last() == ',' { "where "@ + own + " "@ + crate::macros::cheap_clone::bounds(types) } else { "where "@ + own + ", "@ + crate::macros::cheap_clone::bounds(types) }, None => if types.len() == 0 { ""@ } else { "where "@ + crate::macros::cheap_clone::bounds(types) } }),
{
    match predicates {
        Some(own) => {
            let args = seq![own, crate::macros::cheap_clone::bounds(types)];
            lemma_text_where_joined(args);
            lemma_text_where_and(args);
        },
        None => {
            let args = seq![crate::macros::cheap_clone::bounds(types)];
            lemma_text_where(args);
        },
    }
}

/// The derive adds an impl of the marker for the type with its own generics,
/// under its where clause; a union is refused.
pub proof fn law_cheap_clone_impl(shape: Shape, name: Seq<char>, generics: GenericsView, types: Seq<Seq<char>>)
    ensures
        shape != Shape::Union ==> crate::macros::cheap_clone::derived(shape, name, generics, types) == Ok::<Seq<char>, Seq<char>>("impl "@ + generics.params + " rillet::view::CheapClone for "@ + name + " "@ + generics.args + " "@ + crate::macros::cheap_clone::where_clause(generics.predicates, types) + " {}
"@),
        shape == Shape::Union ==> crate::macros::cheap_clone::derived(shape, name, generics, types) == Err::<Seq<char>, Seq<char>>("CheapClone cannot be derived for unions"@),
{
    let args = seq![
        generics.params,
        name,
        generics.args,
        crate::macros::cheap_clone::where_clause(generics.predicates, types),
    ];
    lemma_text_cheap_clone_impl(args);
}

/// The impl that the derive adds holds the bound on every field's type.
pub proof fn law_every_field_is_cheap(name: Seq<char>, generics: GenericsView, types: Seq<Seq<char>>, i: int)
    requires
        0 <= i < types.len(),
    ensures
        crate::text::holds(
            crate::macros::cheap_clone::derived(Shape::Named, name, generics, types)->Ok_0,
            types[i]
                + ": rillet::view::CheapClone"@,
        ),
{
    let list = crate::macros::cheap_clone::bound_list(types);
    let bargs = seq![types[i]];
    lemma_text_bound(bargs);
    crate::text::lemma_joined_holds(list, ", "@, i);
    let all = crate::macros::cheap_clone::bounds(types);
    let clause = crate::macros::cheap_clone::where_clause(generics.predicates, types);
    match generics.predicates {
        Some(own) => {
            let args = seq![own, crate::macros::cheap_clone::bounds(types)];
            lemma_text_where_joined(args);
            lemma_text_where_and(args);
            crate::text::lemma_holds_ends("where "@ + own + " "@, all);
            crate::text::lemma_holds_ends("where "@ + own + ", "@, all);
        },
        None => {
            let args = seq![crate::macros::cheap_clone::bounds(types)];
            lemma_text_where(args);
            crate::text::lemma_holds_ends("where "@, all);
        },
    }
    crate::text::lemma_holds_through(clause, all, list[i]);
    let iargs = seq![generics.params, name, generics.args, clause];
    lemma_text_cheap_clone_impl(iargs);
    let text = crate::macros::cheap_clone::derived(Shape::Named, name, generics, types)->Ok_0;
    crate::text::lemma_holds_middle(" "@, clause, " {}
"@);
    crate::text::lemma_holds_through(text, " "@ + clause + " {}
"@, clause);
    crate::text::lemma_holds_through(text, clause, list[i]);
}

/// The derive adds an impl of the marker for a type without generics, and
/// refuses any other.
pub proof fn law_event_impl(input: InputPartsView)
    ensures
        input.generics.len() == 0 ==> crate::macros::event::derived(input) == Ok::<Seq<char>, Seq<char>>("impl rillet::event::Event for "@ + input.name + " {}
"@),
        input.generics.len() > 0 ==> crate::macros::event::derived(input) == Err::<Seq<char>, Seq<char>>("Event cannot be derived for generic types"@),
{
    let args = seq![input.name];
    lemma_text_event_impl(args);
}

/// What the text of `BOUND` says, whatever fills it.
proof fn lemma_text_bound(args: Seq<Seq<char>>)
    requires
        args.len() >= 1,
    ensures
        crate::text::filled(BOUND@, args) == args[0] + ": rillet::view::CheapClone"@,
{
    reveal_strlit("$0: rillet::view::CheapClone");
    reveal_strlit(": rillet::view::CheapClone");
    let a = Seq::<char>::empty();
    let b = ": rillet::view::CheapClone"@;
    assert(BOUND@ =~= a + crate::text::hole(0) + b);
    crate::text::lemma_fills1(a, 0, b, args);
    assert(crate::text::filled(BOUND@, args) =~= args[0] + ": rillet::view::CheapClone"@);
}

/// What the text of `WHERE_JOINED` says, whatever fills it.
proof fn lemma_text_where_joined(args: Seq<Seq<char>>)
    requires
        args.len() >= 2,
    ensures
        crate::text::filled(WHERE_JOINED@, args) == "where "@ + args[0] + " "@ + args[1],
{
    reveal_strlit("where $0 $1");
    reveal_strlit("where ");
    reveal_strlit(" ");
    let a = "where "@;
    let b = " "@;
    let c = Seq::<char>::empty();
    assert(WHERE_JOINED@ =~= a + crate::text::hole(0) + b + crate::text::hole(1) + c);
    crate::text::lemma_fills2(a, 0, b, 1, c, args);
    assert(crate::text::filled(WHERE_JOINED@, args) =~= "where "@ + args[0] + " "@ + args[1]);
}

/// What the text of `WHERE_AND` says, whatever fills it.
proof fn lemma_text_where_and(args: Seq<Seq<char>>)
    requires
        args.len() >= 2,
    ensures
        crate::text::filled(WHERE_AND@, args) == "where "@ + args[0] + ", "@ + args[1],
{
    reveal_strlit("where $0, $1");
    reveal_strlit("where ");
    reveal_strlit(", ");
    let a = "where "@;
    let b = ", "@;
    let c = Seq::<char>::empty();
    assert(WHERE_AND@ =~= a + crate::text::hole(0) + b + crate::text::hole(1) + c);
    crate::text::lemma_fills2(a, 0, b, 1, c, args);
    assert(crate::text::filled(WHERE_AND@, args) =~= "where "@ + args[0] + ", "@ + args[1]);
}

/// What the text of `WHERE` says, whatever fills it.
proof fn lemma_text_where(args: Seq<Seq<char>>)
    requires
        args.len() >= 1,
    ensures
        crate::text::filled(WHERE@, args) == "where "@ + args[0],
{
    reveal_strlit("where $0");
    reveal_strlit("where ");
    let a = "where "@;
    let b = Seq::<char>::empty();
    assert(WHERE@ =~= a + crate::text::hole(0) + b);
    crate::text::lemma_fills1(a, 0, b, args);
    assert(crate::text::filled(WHERE@, args) =~= "where "@ + args[0]);
}

/// What the text of `CHEAP_CLONE_IMPL` says, whatever fills it.
proof fn lemma_text_cheap_clone_impl(args: Seq<Seq<char>>)
    requires
        args.len() >= 4,
    ensures
        crate::text::filled(CHEAP_CLONE_IMPL@, args) == "impl "@
            + args[0]
            + " rillet::view::CheapClone for "@
            + args[1]
            + " "@
            + args[2]
            + " "@
            + args[3]
            + " {}
"@,
        crate::text::holds(crate::text::filled(CHEAP_CLONE_IMPL@, args), " "@ + args[3] + " {}
"@),
{
    reveal_strlit("impl $0 rillet::view::CheapClone for $1 $2 $3 {}
");
    reveal_strlit("impl ");
    reveal_strlit(" rillet::view::CheapClone for ");
    reveal_strlit(" ");
    reveal_strlit(" {}
");
    let a = "impl "@;
    let b = " rillet::view::CheapClone for "@;
    let c = " "@;
    let d = " "@;
    let e = " {}
"@;
    assert(CHEAP_CLONE_IMPL@ =~= a
        + crate::text::hole(0)
        + b
        + crate::text::hole(1)
        + c
        + crate::text::hole(2)
        + d
        + crate::text::hole(3)
        + e);
    crate::text::lemma_fills4(a, 0, b, 1, c, 2, d, 3, e, args);
    let a = " "@;
    let b = " {}
"@;
    assert(CHEAP_CLONE_IMPL@.subrange(42, 49) =~= a + crate::text::hole(3) + b);
    crate::text::lemma_reads1(CHEAP_CLONE_IMPL@, 42, a, 3, b, args);
}

/// What the text of `EVENT_IMPL` says, whatever fills it.
proof fn lemma_text_event_impl(args: Seq<Seq<char>>)
    requires
        args.len() >= 1,
    ensures
        crate::text::filled(EVENT_IMPL@, args) == "impl rillet::event::Event for "@
            + args[0]
            + " {}
"@,
{
    reveal_strlit("impl rillet::event::Event for $0 {}
");
    reveal_strlit("impl rillet::event::Event for ");
    reveal_strlit(" {}
");
    let a = "impl rillet::event::Event for "@;
    let b = " {}
"@;
    assert(EVENT_IMPL@ =~= a + crate::text::hole(0) + b);
    crate::text::lemma_fills1(a, 0, b, args);
}

} // verus!
