//! What holds of the command queue of every service.

use crate::macros::commands::{
    COMMA, COMMAND_ENUM, CONCLUDE_METHODS, CommandKindView, CommandView, DEFERRED_KEY,
    DEFERRED_REASON, DEFERRED_VARIANT, EXECUTE_DEFERRED, EXECUTE_IMMEDIATE, EXECUTE_IMPL,
    EXECUTE_TUPLE, EXECUTE_UNIT, IMMEDIATE_REASON, IMMEDIATE_VARIANT, IMPL, MATCH_SELF,
    METRICS_IMPL, NAME_AND_COMMA, NamesView, PARAM, POSITION, QUOTED, SEND_DEFERRED, SEND_IMMEDIATE,
    SEND_TUPLE, SEND_UNIT, TUPLE_ARM, TUPLE_VARIANT, TYPE_AND_COMMA, UNIT_ARM, UNIT_VARIANT, USIZE,
};
use crate::macros::methods::ParamView;
use vstd::prelude::*;

verus! {

/// A `usize` literal is the number in digits and the suffix.
pub proof fn law_usize_literal(n: nat)
    ensures
        crate::macros::commands::usize_literal(n) == (crate::text::digits(n) + "usize"@),
{
    let args = seq![crate::text::digits(n)];
    lemma_text_usize(args);
    assert(crate::text::digits(n) + "usize"@ =~= (crate::text::digits(n) + "usize"@));
}

/// Parameters are declared each by its name and its type, in their order.
pub proof fn law_param_decls(params: Seq<ParamView>)
    ensures
        crate::macros::commands::param_decls(params) == crate::text::joined(params.map_values(|p: ParamView| p.name + ": "@ + p.ty), ", "@),
{
    let decls = params.map_values(|p: ParamView| crate::macros::commands::param_decl(p));
    let spelled = params.map_values(|p: ParamView| p.name + ": "@ + p.ty);
    assert forall|i: int| 0 <= i < params.len() implies #[trigger] decls[i] == spelled[i] by {
        let args = seq![params[i].name, params[i].ty];
        lemma_text_param(args);
    }
    assert(decls =~= spelled);
}

/// The names of parameters are listed in their order.
pub proof fn law_param_names(params: Seq<ParamView>)
    ensures
        crate::macros::commands::param_names(params) == crate::text::joined(params.map_values(|p: ParamView| p.name), ", "@),
{
}

/// The types of parameters are listed in their order.
pub proof fn law_param_types(params: Seq<ParamView>)
    ensures
        crate::macros::commands::param_types(params) == crate::text::joined(params.map_values(|p: ParamView| p.ty), ", "@),
{
}

/// The fields of a variant are named by their numbers, one name for each.
pub proof fn law_positions(n: nat)
    ensures
        crate::macros::commands::positions(n) == crate::text::joined(Seq::new(n, |k: int| "v"@ + crate::text::digits(k as nat)), ", "@),
{
    let parts = crate::text::numbered_parts(POSITION@, n);
    let spelled = Seq::new(n, |k: int| "v"@ + crate::text::digits(k as nat));
    assert forall|k: int| 0 <= k < n implies #[trigger] parts[k] == spelled[k] by {
        let args = seq![crate::text::digits(k as nat)];
        lemma_text_position(args);
        assert("v"@ + crate::text::digits(k as nat) =~= spelled[k]);
    }
    assert(parts =~= spelled);
}

/// Where a resolver follows the fields of a variant, a comma stands behind
/// them, and nothing stands there where there are no fields.
pub proof fn law_positions_and_commas(n: nat)
    ensures
        n == 0 ==> crate::macros::commands::positions_and_commas(n) == ""@,
        n > 0 ==> crate::macros::commands::positions_and_commas(n) == crate::macros::commands::positions(n)
            + ", "@,
{
    let args = seq![crate::macros::commands::positions(n)];
    lemma_text_name_and_comma(args);
    reveal_strlit("");
    assert(""@ =~= Seq::<char>::empty());
}

/// Where a resolver follows an op's arguments, a comma stands behind each.
pub proof fn law_names_and_commas(params: Seq<ParamView>)
    ensures
        crate::macros::commands::names_and_commas(params) == crate::text::concat(params.map_values(|p: ParamView| p.name + ", "@)),
{
    let parts = params.map_values(|p: ParamView| crate::text::filled(NAME_AND_COMMA@, seq![p.name]));
    let spelled = params.map_values(|p: ParamView| p.name + ", "@);
    assert forall|i: int| 0 <= i < params.len() implies #[trigger] parts[i] == spelled[i] by {
        let args = seq![params[i].name];
        lemma_text_name_and_comma(args);
    }
    assert(parts =~= spelled);
}

/// A command's name as a string literal, spelled out.
proof fn lemma_quoted_name(c: CommandView)
    ensures
        crate::macros::commands::quoted_name(c) == ("\""@ + c.method_name + "\""@),
{
    let args = seq![c.method_name];
    lemma_text_quoted(args);
}

/// The enum counts its commands, and its array of names holds the name of each
/// command at the command's number.
pub proof fn law_command_names(names: NamesView, commands: Seq<CommandView>)
    ensures
        crate::text::holds(
            crate::macros::commands::command_enum(names, commands),
            "impl "@
                + names.command
                + " {
    /// Number of command variants.
    const COUNT: usize = "@
                + (crate::text::digits(commands.len()) + "usize"@)
                + ";

    /// Array of command names for metrics.
    const NAMES: [&'static str; "@
                + (crate::text::digits(commands.len()) + "usize"@)
                + "] = ["@
                + crate::text::joined(commands.map_values(|c: CommandView| "\""@ + c.method_name + "\""@), ", "@)
                + "];
"@,
        ),
{
    let args = seq![
        names.command,
        crate::text::concat(commands.map_values(|c: CommandView| crate::macros::commands::enum_variant(c))),
        crate::macros::commands::usize_literal(commands.len()),
        crate::text::joined(commands.map_values(|c: CommandView| crate::macros::commands::quoted_name(c)), COMMA@),
        crate::macros::commands::match_body(commands, crate::text::concat(commands.map(|i: int, c: CommandView| crate::macros::commands::variant_arm(c, crate::macros::commands::usize_literal(i as nat))))),
        crate::macros::commands::match_body(commands, crate::text::concat(commands.map_values(|c: CommandView| crate::macros::commands::variant_arm(c, crate::macros::commands::quoted_name(c))))),
    ];
    let quoted = commands.map_values(|c: CommandView| crate::macros::commands::quoted_name(c));
    let spelled = commands.map_values(|c: CommandView| "\""@ + c.method_name + "\""@);
    assert forall|i: int| 0 <= i < commands.len() implies #[trigger] quoted[i] == spelled[i] by {
        lemma_quoted_name(commands[i]);
    }
    assert(quoted =~= spelled);
    law_usize_literal(commands.len());
    lemma_text_command_enum(args);
}

/// The index of a command is its place among the commands: the match has one
/// arm for each command, in their order, with the command's number.
pub proof fn law_index_of_each_command(names: NamesView, commands: Seq<CommandView>) -> (arms: Seq<Seq<char>>)
    requires
        commands.len() > 0,
    ensures
        forall|i: int| 0 <= i < commands.len() && commands[i].params.len() == 0 && commands[i].kind is Plain ==> #[trigger] arms[i] == "Self::"@
            + commands[i].variant_name
            + " => "@
            + (crate::text::digits(i as nat) + "usize"@)
            + ",
"@,
        forall|i: int| 0 <= i < commands.len() && !(commands[i].params.len() == 0 && commands[i].kind is Plain) ==> #[trigger] arms[i] == "Self::"@
            + commands[i].variant_name
            + "(..) => "@
            + (crate::text::digits(i as nat) + "usize"@)
            + ",
"@,
        arms.len() == commands.len(),
        crate::text::holds(
            crate::macros::commands::command_enum(names, commands),
            "fn index(&self) -> usize {
        "@
                + ("match self {
    "@ + crate::text::concat(arms) + "
}"@)
                + "
    }
"@,
        ),
{
    let args = seq![
        names.command,
        crate::text::concat(commands.map_values(|c: CommandView| crate::macros::commands::enum_variant(c))),
        crate::macros::commands::usize_literal(commands.len()),
        crate::text::joined(commands.map_values(|c: CommandView| crate::macros::commands::quoted_name(c)), COMMA@),
        crate::macros::commands::match_body(commands, crate::text::concat(commands.map(|i: int, c: CommandView| crate::macros::commands::variant_arm(c, crate::macros::commands::usize_literal(i as nat))))),
        crate::macros::commands::match_body(commands, crate::text::concat(commands.map_values(|c: CommandView| crate::macros::commands::variant_arm(c, crate::macros::commands::quoted_name(c))))),
    ];
    let arms = commands.map(|i: int, c: CommandView| crate::macros::commands::variant_arm(c, crate::macros::commands::usize_literal(i as nat)));
    let margs = seq![crate::text::concat(arms)];
    lemma_text_match_self(margs);
    lemma_text_command_enum(args);
    assert forall|i: int| 0 <= i < commands.len() && commands[i].params.len() == 0 && commands[i].kind is Plain implies #[trigger] arms[i] == "Self::"@
        + commands[i].variant_name
        + " => "@
        + (crate::text::digits(i as nat) + "usize"@)
        + ",
"@ by {
        law_usize_literal(i as nat);
        let vargs = seq![commands[i].variant_name, (crate::text::digits(i as nat) + "usize"@)];
        lemma_text_unit_arm(vargs);
    }
    assert forall|i: int| 0 <= i < commands.len() && !(commands[i].params.len() == 0 && commands[i].kind is Plain) implies #[trigger] arms[i] == "Self::"@
        + commands[i].variant_name
        + "(..) => "@
        + (crate::text::digits(i as nat) + "usize"@)
        + ",
"@ by {
        law_usize_literal(i as nat);
        let vargs = seq![commands[i].variant_name, (crate::text::digits(i as nat) + "usize"@)];
        lemma_text_tuple_arm(vargs);
    }
    arms
}

/// The name of a command is its method's: the match has one arm for each
/// command, in their order, with the method's name.
pub proof fn law_name_of_each_command(names: NamesView, commands: Seq<CommandView>) -> (arms: Seq<Seq<char>>)
    requires
        commands.len() > 0,
    ensures
        forall|i: int| 0 <= i < commands.len() && commands[i].params.len() == 0 && commands[i].kind is Plain ==> #[trigger] arms[i] == "Self::"@
            + commands[i].variant_name
            + " => "@
            + ("\""@ + commands[i].method_name + "\""@)
            + ",
"@,
        forall|i: int| 0 <= i < commands.len() && !(commands[i].params.len() == 0 && commands[i].kind is Plain) ==> #[trigger] arms[i] == "Self::"@
            + commands[i].variant_name
            + "(..) => "@
            + ("\""@ + commands[i].method_name + "\""@)
            + ",
"@,
        arms.len() == commands.len(),
        crate::text::holds(
            crate::macros::commands::command_enum(names, commands),
            "fn name(&self) -> &'static str {
        "@
                + ("match self {
    "@ + crate::text::concat(arms) + "
}"@)
                + "
    }
"@,
        ),
{
    let args = seq![
        names.command,
        crate::text::concat(commands.map_values(|c: CommandView| crate::macros::commands::enum_variant(c))),
        crate::macros::commands::usize_literal(commands.len()),
        crate::text::joined(commands.map_values(|c: CommandView| crate::macros::commands::quoted_name(c)), COMMA@),
        crate::macros::commands::match_body(commands, crate::text::concat(commands.map(|i: int, c: CommandView| crate::macros::commands::variant_arm(c, crate::macros::commands::usize_literal(i as nat))))),
        crate::macros::commands::match_body(commands, crate::text::concat(commands.map_values(|c: CommandView| crate::macros::commands::variant_arm(c, crate::macros::commands::quoted_name(c))))),
    ];
    let arms = commands.map_values(|c: CommandView| crate::macros::commands::variant_arm(c, crate::macros::commands::quoted_name(c)));
    let margs = seq![crate::text::concat(arms)];
    lemma_text_match_self(margs);
    lemma_text_command_enum(args);
    assert forall|i: int| 0 <= i < commands.len() && commands[i].params.len() == 0 && commands[i].kind is Plain implies #[trigger] arms[i] == "Self::"@
        + commands[i].variant_name
        + " => "@
        + ("\""@ + commands[i].method_name + "\""@)
        + ",
"@ by {
        lemma_quoted_name(commands[i]);
        let vargs = seq![commands[i].variant_name, ("\""@ + commands[i].method_name + "\""@)];
        lemma_text_unit_arm(vargs);
    }
    assert forall|i: int| 0 <= i < commands.len() && !(commands[i].params.len() == 0 && commands[i].kind is Plain) implies #[trigger] arms[i] == "Self::"@
        + commands[i].variant_name
        + "(..) => "@
        + ("\""@ + commands[i].method_name + "\""@)
        + ",
"@ by {
        lemma_quoted_name(commands[i]);
        let vargs = seq![commands[i].variant_name, ("\""@ + commands[i].method_name + "\""@)];
        lemma_text_tuple_arm(vargs);
    }
    arms
}

/// An enum without commands has no variant, and its index and name have no
/// value to return.
pub proof fn law_no_commands_no_variants(names: NamesView, commands: Seq<CommandView>)
    requires
        commands.len() == 0,
    ensures
        crate::text::holds(
            crate::macros::commands::command_enum(names, commands),
            "enum "@
                + names.command
                + " {
    "@
                + ""@
                + "
}
"@,
        ),
        crate::text::holds(
            crate::macros::commands::command_enum(names, commands),
            "fn index(&self) -> usize {
        "@
                + "unreachable!(\"empty command enum cannot be instantiated\")"@
                + "
    }
"@,
        ),
        crate::text::holds(
            crate::macros::commands::command_enum(names, commands),
            "fn name(&self) -> &'static str {
        "@
                + "unreachable!(\"empty command enum cannot be instantiated\")"@
                + "
    }
"@,
        ),
{
    let args = seq![
        names.command,
        crate::text::concat(commands.map_values(|c: CommandView| crate::macros::commands::enum_variant(c))),
        crate::macros::commands::usize_literal(commands.len()),
        crate::text::joined(commands.map_values(|c: CommandView| crate::macros::commands::quoted_name(c)), COMMA@),
        crate::macros::commands::match_body(commands, crate::text::concat(commands.map(|i: int, c: CommandView| crate::macros::commands::variant_arm(c, crate::macros::commands::usize_literal(i as nat))))),
        crate::macros::commands::match_body(commands, crate::text::concat(commands.map_values(|c: CommandView| crate::macros::commands::variant_arm(c, crate::macros::commands::quoted_name(c))))),
    ];
    reveal_strlit("");
    assert(commands.map_values(|c: CommandView| crate::macros::commands::enum_variant(c)) =~= seq![]);
    assert(crate::text::concat(commands.map_values(|c: CommandView| crate::macros::commands::enum_variant(c))) =~= ""@);
    lemma_text_command_enum(args);
}

/// The types an op's operation is made of, spelled out.
proof fn lemma_op_types(output: Seq<char>)
    ensures
        crate::text::filled(IMMEDIATE_REASON@, seq![output]) == "<fn() "@
            + output
            + " as rillet::op::Outcome>::Reason"@,
        crate::text::filled(DEFERRED_REASON@, seq![output]) == "<fn() "@
            + output
            + " as rillet::op::Deferral>::Reason"@,
        crate::text::filled(DEFERRED_KEY@, seq![output]) == "<fn() "@
            + output
            + " as rillet::op::Deferral>::Key"@,
{
    let args = seq![output];
    lemma_text_immediate_reason(args);
    lemma_text_deferred_reason(args);
    lemma_text_deferred_key(args);
}

/// Types with a comma behind each, spelled out.
proof fn lemma_types_and_commas(params: Seq<ParamView>)
    ensures
        crate::text::concat(params.map_values(|p: ParamView| crate::text::filled(TYPE_AND_COMMA@, seq![p.ty]))) == crate::text::concat(params.map_values(|p: ParamView| p.ty + ", "@)),
{
    let parts = params.map_values(|p: ParamView| crate::text::filled(TYPE_AND_COMMA@, seq![p.ty]));
    let spelled = params.map_values(|p: ParamView| p.ty + ", "@);
    assert forall|i: int| 0 <= i < params.len() implies #[trigger] parts[i] == spelled[i] by {
        let args = seq![params[i].ty];
        lemma_text_type_and_comma(args);
    }
    assert(parts =~= spelled);
}

/// The enum has one variant for each command, in their order: with the types
/// of a plain command's parameters, with these and a resolver for an
/// immediate op, and with the key and a resolver for a deferred op.
pub proof fn law_variant_of_each_command(names: NamesView, commands: Seq<CommandView>) -> (variants: Seq<Seq<char>>)
    ensures
        forall|i: int| 0 <= i < commands.len() && commands[i].kind is Plain && commands[i].params.len() == 0 ==> #[trigger] variants[i] == commands[i].variant_name
            + ",
"@,
        forall|i: int| 0 <= i < commands.len() && commands[i].kind is Plain && commands[i].params.len() > 0 ==> #[trigger] variants[i] == commands[i].variant_name
            + "("@
            + crate::macros::commands::param_types(commands[i].params)
            + "),
"@,
        forall|i: int| 0 <= i < commands.len() && commands[i].kind is Immediate ==> #[trigger] variants[i] == commands[i].variant_name
            + "("@
            + crate::text::concat(commands[i].params.map_values(|p: ParamView| p.ty + ", "@))
            + " rillet::op::Resolver<"@
            + ("<fn() "@ + commands[i].kind->Immediate_output + " as rillet::op::Outcome>::Reason"@)
            + ">),
"@,
        forall|i: int| 0 <= i < commands.len() && commands[i].kind is Deferred ==> #[trigger] variants[i] == commands[i].variant_name
            + "("@
            + ("<fn() "@ + commands[i].kind->Deferred_output + " as rillet::op::Deferral>::Key"@)
            + ", rillet::op::Resolver<"@
            + ("<fn() "@ + commands[i].kind->Deferred_output + " as rillet::op::Deferral>::Reason"@)
            + ">),
"@,
        variants.len() == commands.len(),
        crate::text::holds(
            crate::macros::commands::command_enum(names, commands),
            "enum "@
                + names.command
                + " {
    "@
                + crate::text::concat(variants)
                + "
}
"@,
        ),
{
    let args = seq![
        names.command,
        crate::text::concat(commands.map_values(|c: CommandView| crate::macros::commands::enum_variant(c))),
        crate::macros::commands::usize_literal(commands.len()),
        crate::text::joined(commands.map_values(|c: CommandView| crate::macros::commands::quoted_name(c)), COMMA@),
        crate::macros::commands::match_body(commands, crate::text::concat(commands.map(|i: int, c: CommandView| crate::macros::commands::variant_arm(c, crate::macros::commands::usize_literal(i as nat))))),
        crate::macros::commands::match_body(commands, crate::text::concat(commands.map_values(|c: CommandView| crate::macros::commands::variant_arm(c, crate::macros::commands::quoted_name(c))))),
    ];
    let variants = commands.map_values(|c: CommandView| crate::macros::commands::enum_variant(c));
    assert forall|i: int| 0 <= i < commands.len() && commands[i].kind is Plain && commands[i].params.len() == 0 implies #[trigger] variants[i] == commands[i].variant_name
        + ",
"@ by {
        let vargs = seq![commands[i].variant_name];
        lemma_text_unit_variant(vargs);
    }
    assert forall|i: int| 0 <= i < commands.len() && commands[i].kind is Plain && commands[i].params.len() > 0 implies #[trigger] variants[i] == commands[i].variant_name
        + "("@
        + crate::macros::commands::param_types(commands[i].params)
        + "),
"@ by {
        let vargs = seq![
            commands[i].variant_name,
            crate::macros::commands::param_types(commands[i].params),
        ];
        lemma_text_tuple_variant(vargs);
    }
    assert forall|i: int| 0 <= i < commands.len() && commands[i].kind is Immediate implies #[trigger] variants[i] == commands[i].variant_name
        + "("@
        + crate::text::concat(commands[i].params.map_values(|p: ParamView| p.ty + ", "@))
        + " rillet::op::Resolver<"@
        + ("<fn() "@ + commands[i].kind->Immediate_output + " as rillet::op::Outcome>::Reason"@)
        + ">),
"@ by {
        lemma_op_types(commands[i].kind->Immediate_output);
        lemma_types_and_commas(commands[i].params);
        let vargs = seq![
            commands[i].variant_name,
            crate::text::concat(commands[i].params.map_values(|p: ParamView| crate::text::filled(TYPE_AND_COMMA@, seq![p.ty]))),
            crate::text::filled(IMMEDIATE_REASON@, seq![commands[i].kind->Immediate_output]),
        ];
        lemma_text_immediate_variant(vargs);
    }
    assert forall|i: int| 0 <= i < commands.len() && commands[i].kind is Deferred implies #[trigger] variants[i] == commands[i].variant_name
        + "("@
        + ("<fn() "@ + commands[i].kind->Deferred_output + " as rillet::op::Deferral>::Key"@)
        + ", rillet::op::Resolver<"@
        + ("<fn() "@ + commands[i].kind->Deferred_output + " as rillet::op::Deferral>::Reason"@)
        + ">),
"@ by {
        lemma_op_types(commands[i].kind->Deferred_output);
        let vargs = seq![
            commands[i].variant_name,
            crate::text::filled(DEFERRED_KEY@, seq![commands[i].kind->Deferred_output]),
            crate::text::filled(DEFERRED_REASON@, seq![commands[i].kind->Deferred_output]),
        ];
        lemma_text_deferred_variant(vargs);
    }
    lemma_text_command_enum(args);
    variants
}

/// Executing a command calls the service's method of the same name with the
/// command's fields. An immediate op's operation concludes with the method's
/// result; a deferred op's operation is parked under the method's name and
/// the key, with the op's timeout, before its execute method runs with the
/// key. There is one arm for each command, in their order.
pub proof fn law_execute_runs_each_command(names: NamesView, commands: Seq<CommandView>) -> (arms: Seq<Seq<char>>)
    ensures
        forall|i: int| 0 <= i < commands.len() && commands[i].kind is Plain && commands[i].params.len() == 0 ==> #[trigger] arms[i] == names.command
            + "::"@
            + commands[i].variant_name
            + " => state."@
            + commands[i].method_name
            + "(),
"@,
        forall|i: int| 0 <= i < commands.len() && commands[i].kind is Plain && commands[i].params.len() > 0 ==> #[trigger] arms[i] == names.command
            + "::"@
            + commands[i].variant_name
            + "("@
            + crate::macros::commands::positions(commands[i].params.len())
            + ") => state."@
            + commands[i].method_name
            + "("@
            + crate::macros::commands::positions(commands[i].params.len())
            + "),
"@,
        forall|i: int| 0 <= i < commands.len() && commands[i].kind is Immediate ==> #[trigger] arms[i] == names.command
            + "::"@
            + commands[i].variant_name
            + "("@
            + crate::macros::commands::positions_and_commas(commands[i].params.len())
            + " __resolver) => {
    let outcome = state."@
            + commands[i].method_name
            + "("@
            + crate::macros::commands::positions_and_commas(commands[i].params.len())
            + ");
    state.__rillet_ops.queue_conclusion(move || match outcome {
        Ok(()) => __resolver.succeed(),
        Err(reason) => __resolver.fail(reason),
    });
}
"@,
        forall|i: int| 0 <= i < commands.len() && commands[i].kind is Deferred ==> #[trigger] arms[i] == names.command
            + "::"@
            + commands[i].variant_name
            + "(key, resolver) => {
    state.__rillet_ops.insert(\""@
            + commands[i].method_name
            + "\", key.clone(), resolver, || "@
            + commands[i].kind->Deferred_timeout
            + ");
    state."@
            + commands[i].kind->Deferred_execute
            + "(key);
}
"@,
        arms.len() == commands.len(),
        crate::macros::commands::execute_impl(names, commands) == "impl "@
            + names.command
            + " {
    fn execute(self, state: &mut "@
            + names.service
            + ") {
        match self {
            "@
            + crate::text::concat(arms)
            + "
        }
    }
}
"@,
{
    let args = seq![
        names.command,
        names.service,
        crate::text::concat(commands.map_values(|c: CommandView| crate::macros::commands::execute_arm(names, c))),
    ];
    let arms = commands.map_values(|c: CommandView| crate::macros::commands::execute_arm(names, c));
    assert forall|i: int| 0 <= i < commands.len() && commands[i].kind is Plain && commands[i].params.len() == 0 implies #[trigger] arms[i] == names.command
        + "::"@
        + commands[i].variant_name
        + " => state."@
        + commands[i].method_name
        + "(),
"@ by {
        let vargs = seq![names.command, commands[i].variant_name, commands[i].method_name];
        lemma_text_execute_unit(vargs);
    }
    assert forall|i: int| 0 <= i < commands.len() && commands[i].kind is Plain && commands[i].params.len() > 0 implies #[trigger] arms[i] == names.command
        + "::"@
        + commands[i].variant_name
        + "("@
        + crate::macros::commands::positions(commands[i].params.len())
        + ") => state."@
        + commands[i].method_name
        + "("@
        + crate::macros::commands::positions(commands[i].params.len())
        + "),
"@ by {
        let vargs = seq![
            names.command,
            commands[i].variant_name,
            commands[i].method_name,
            crate::macros::commands::positions(commands[i].params.len()),
        ];
        lemma_text_execute_tuple(vargs);
    }
    assert forall|i: int| 0 <= i < commands.len() && commands[i].kind is Immediate implies #[trigger] arms[i] == names.command
        + "::"@
        + commands[i].variant_name
        + "("@
        + crate::macros::commands::positions_and_commas(commands[i].params.len())
        + " __resolver) => {
    let outcome = state."@
        + commands[i].method_name
        + "("@
        + crate::macros::commands::positions_and_commas(commands[i].params.len())
        + ");
    state.__rillet_ops.queue_conclusion(move || match outcome {
        Ok(()) => __resolver.succeed(),
        Err(reason) => __resolver.fail(reason),
    });
}
"@ by {
        let vargs = seq![
            names.command,
            commands[i].variant_name,
            commands[i].method_name,
            crate::macros::commands::positions_and_commas(commands[i].params.len()),
        ];
        lemma_text_execute_immediate(vargs);
    }
    assert forall|i: int| 0 <= i < commands.len() && commands[i].kind is Deferred implies #[trigger] arms[i] == names.command
        + "::"@
        + commands[i].variant_name
        + "(key, resolver) => {
    state.__rillet_ops.insert(\""@
        + commands[i].method_name
        + "\", key.clone(), resolver, || "@
        + commands[i].kind->Deferred_timeout
        + ");
    state."@
        + commands[i].kind->Deferred_execute
        + "(key);
}
"@ by {
        let vargs = seq![
            names.command,
            commands[i].variant_name,
            commands[i].method_name,
            commands[i].kind->Deferred_execute,
            commands[i].kind->Deferred_timeout,
        ];
        lemma_text_execute_deferred(vargs);
    }
    lemma_text_execute_impl(args);
    arms
}

/// A deferred op is parked and looked up under one name, that of its method:
/// the arm that parks its resolver and the methods `succeed_<op>` and
/// `fail_<op>` that conclude it name the same text, with the same key type
/// and reason.
pub proof fn law_op_name_is_shared(names: NamesView, commands: Seq<CommandView>, i: int)
    requires
        0 <= i < commands.len(),
        commands[i].kind is Deferred,
    ensures
        crate::text::holds(
            crate::macros::commands::execute_impl(names, commands),
            names.command
                + "::"@
                + commands[i].variant_name
                + "(key, resolver) => {
    state.__rillet_ops.insert(\""@
                + commands[i].method_name
                + "\", key.clone(), resolver, || "@
                + commands[i].kind->Deferred_timeout
                + ");
    state."@
                + commands[i].kind->Deferred_execute
                + "(key);
}
"@,
        ),
        crate::text::holds(
            crate::macros::commands::conclude_impl(names, commands),
            "fn succeed_"@
                + commands[i].method_name
                + "(&self, key: &"@
                + ("<fn() "@ + commands[i].kind->Deferred_output + " as rillet::op::Deferral>::Key"@)
                + ") {
    self.__rillet_ops.succeed::<"@
                + ("<fn() "@ + commands[i].kind->Deferred_output + " as rillet::op::Deferral>::Key"@)
                + ", "@
                + ("<fn() "@ + commands[i].kind->Deferred_output + " as rillet::op::Deferral>::Reason"@)
                + ">(\""@
                + commands[i].method_name
                + "\", key);
}
"@,
        ),
        crate::text::holds(
            crate::macros::commands::conclude_impl(names, commands),
            "fn fail_"@
                + commands[i].method_name
                + "(&self, key: &"@
                + ("<fn() "@ + commands[i].kind->Deferred_output + " as rillet::op::Deferral>::Key"@)
                + ", reason: "@
                + ("<fn() "@ + commands[i].kind->Deferred_output + " as rillet::op::Deferral>::Reason"@)
                + ") {
    self.__rillet_ops.fail::<"@
                + ("<fn() "@ + commands[i].kind->Deferred_output + " as rillet::op::Deferral>::Key"@)
                + ", "@
                + ("<fn() "@ + commands[i].kind->Deferred_output + " as rillet::op::Deferral>::Reason"@)
                + ">(\""@
                + commands[i].method_name
                + "\", key, reason);
}
"@,
        ),
{
    let arms = commands.map_values(|c: CommandView| crate::macros::commands::execute_arm(names, c));
    crate::text::lemma_concat_holds(arms, i);
    let eargs = seq![names.command, names.service, crate::text::concat(arms)];
    let vargs = seq![
        names.command,
        commands[i].variant_name,
        commands[i].method_name,
        commands[i].kind->Deferred_execute,
        commands[i].kind->Deferred_timeout,
    ];
    lemma_text_execute_deferred(vargs);
    lemma_text_execute_impl(eargs);
    crate::text::lemma_holds_middle("match self {
            "@, crate::text::concat(arms), "
        }"@);
    crate::text::lemma_holds_through(
        crate::macros::commands::execute_impl(names, commands),
        "match self {
            "@
            + crate::text::concat(arms)
            + "
        }"@,
        crate::text::concat(arms),
    );
    let part = names.command
        + "::"@
        + commands[i].variant_name
        + "(key, resolver) => {
    state.__rillet_ops.insert(\""@
        + commands[i].method_name
        + "\", key.clone(), resolver, || "@
        + commands[i].kind->Deferred_timeout
        + ");
    state."@
        + commands[i].kind->Deferred_execute
        + "(key);
}
"@;
    crate::text::lemma_holds_through(
        crate::macros::commands::execute_impl(names, commands),
        crate::text::concat(arms),
        part,
    );
    lemma_op_types(commands[i].kind->Deferred_output);
    let methods = commands.map_values(|c: CommandView| crate::macros::commands::conclude_methods(c));
    crate::text::lemma_concat_holds(methods, i);
    let cargs = seq![names.service, crate::text::concat(methods)];
    lemma_text_impl(cargs);
    crate::text::lemma_holds_middle(" {
    "@, crate::text::concat(methods), "
}
"@);
    crate::text::lemma_holds_through(crate::macros::commands::conclude_impl(names, commands), " {
    "@ + crate::text::concat(methods) + "
}
"@, crate::text::concat(methods));
    crate::text::lemma_holds_through(
        crate::macros::commands::conclude_impl(names, commands),
        crate::text::concat(methods),
        methods[i],
    );
    let margs = seq![
        commands[i].method_name,
        crate::text::filled(DEFERRED_KEY@, seq![commands[i].kind->Deferred_output]),
        crate::text::filled(DEFERRED_REASON@, seq![commands[i].kind->Deferred_output]),
    ];
    lemma_text_conclude_methods(margs);
    let part1 = "fn succeed_"@
        + commands[i].method_name
        + "(&self, key: &"@
        + ("<fn() "@ + commands[i].kind->Deferred_output + " as rillet::op::Deferral>::Key"@)
        + ") {
    self.__rillet_ops.succeed::<"@
        + ("<fn() "@ + commands[i].kind->Deferred_output + " as rillet::op::Deferral>::Key"@)
        + ", "@
        + ("<fn() "@ + commands[i].kind->Deferred_output + " as rillet::op::Deferral>::Reason"@)
        + ">(\""@
        + commands[i].method_name
        + "\", key);
}
"@;
    crate::text::lemma_holds_through(
        crate::macros::commands::conclude_impl(names, commands),
        methods[i],
        part1,
    );
    let part2 = "fn fail_"@
        + commands[i].method_name
        + "(&self, key: &"@
        + ("<fn() "@ + commands[i].kind->Deferred_output + " as rillet::op::Deferral>::Key"@)
        + ", reason: "@
        + ("<fn() "@ + commands[i].kind->Deferred_output + " as rillet::op::Deferral>::Reason"@)
        + ") {
    self.__rillet_ops.fail::<"@
        + ("<fn() "@ + commands[i].kind->Deferred_output + " as rillet::op::Deferral>::Key"@)
        + ", "@
        + ("<fn() "@ + commands[i].kind->Deferred_output + " as rillet::op::Deferral>::Reason"@)
        + ">(\""@
        + commands[i].method_name
        + "\", key, reason);
}
"@;
    crate::text::lemma_holds_through(
        crate::macros::commands::conclude_impl(names, commands),
        methods[i],
        part2,
    );
}

/// Two ops whose methods differ in name are parked under different names.
pub proof fn law_op_names_differ(a: CommandView, b: CommandView)
    requires
        a.method_name != b.method_name,
    ensures
        "\""@ + a.method_name + "\""@ != "\""@ + b.method_name + "\""@,
        crate::macros::commands::quoted_name(a) != crate::macros::commands::quoted_name(b),
{
    lemma_quoted_name(a);
    lemma_quoted_name(b);
    let x = ("\""@ + a.method_name + "\""@);
    let y = ("\""@ + b.method_name + "\""@);
    if x == y {
        reveal_strlit("\"");
        assert(x.subrange(1, x.len() - 1) =~= a.method_name);
        assert(y.subrange(1, y.len() - 1) =~= b.method_name);
    }
}

/// The service gets conclude methods for its deferred ops, in their order, and
/// for no other command.
pub proof fn law_only_deferred_ops_conclude(names: NamesView, commands: Seq<CommandView>) -> (methods: Seq<Seq<char>>)
    ensures
        methods.len() == commands.len(),
        forall|i: int| 0 <= i < commands.len() && !(commands[i].kind is Deferred) ==> #[trigger] methods[i] == ""@,
        crate::macros::commands::conclude_impl(names, commands) == "impl "@
            + names.service
            + " {
    "@
            + crate::text::concat(methods)
            + "
}
"@,
{
    let methods = commands.map_values(|c: CommandView| crate::macros::commands::conclude_methods(c));
    let args = seq![names.service, crate::text::concat(methods)];
    lemma_text_impl(args);
    reveal_strlit("");
    assert(""@ =~= Seq::<char>::empty());
    methods
}

/// The handle has one method for each command, in their order.
proof fn lemma_handle_methods(names: NamesView, commands: Seq<CommandView>) -> (methods: Seq<Seq<char>>)
    ensures
        methods == commands.map(|i: int, c: CommandView| crate::macros::commands::sender_method(names, i, c)),
        methods.len() == commands.len(),
        crate::macros::commands::handle_impl(names, commands) == "impl "@
            + names.handle
            + " {
    "@
            + crate::text::concat(methods)
            + "
}
"@,
{
    let methods = commands.map(|i: int, c: CommandView| crate::macros::commands::sender_method(names, i, c));
    let args = seq![names.handle, crate::text::concat(methods)];
    lemma_text_impl(args);
    methods
}

/// The handle's method for a command without parameters counts it under the
/// command's number and sends its variant.
pub proof fn law_unit_command_is_queued(names: NamesView, commands: Seq<CommandView>, i: int)
    requires
        0 <= i < commands.len(),
        commands[i].kind is Plain,
        commands[i].params.len() == 0,
    ensures
        crate::text::holds(
            crate::macros::commands::handle_impl(names, commands),
            "pub fn "@
                + commands[i].method_name
                + "(&self) {
    self.metrics.inc_enqueued("@
                + (crate::text::digits(i as nat) + "usize"@)
                + ");
    rillet::runtime::send_command(&self.cmd_tx, "@
                + names.command
                + "::"@
                + commands[i].variant_name
                + ", stringify!("@
                + commands[i].method_name
                + "));
}
"@,
        ),
{
    let methods = lemma_handle_methods(names, commands);
    crate::text::lemma_concat_holds(methods, i);
    law_usize_literal(i as nat);
    let hargs = seq![names.handle, crate::text::concat(methods)];
    lemma_text_impl(hargs);
    crate::text::lemma_holds_middle(" {
    "@, crate::text::concat(methods), "
}
"@);
    crate::text::lemma_holds_through(crate::macros::commands::handle_impl(names, commands), " {
    "@ + crate::text::concat(methods) + "
}
"@, crate::text::concat(methods));
    crate::text::lemma_holds_through(
        crate::macros::commands::handle_impl(names, commands),
        crate::text::concat(methods),
        methods[i],
    );
    let args = seq![
        commands[i].method_name,
        crate::macros::commands::usize_literal(i as nat),
        names.command,
        commands[i].variant_name,
    ];
    lemma_text_send_unit(args);
    let part = "pub fn "@
        + commands[i].method_name
        + "(&self) {
    self.metrics.inc_enqueued("@
        + (crate::text::digits(i as nat) + "usize"@)
        + ");
    rillet::runtime::send_command(&self.cmd_tx, "@
        + names.command
        + "::"@
        + commands[i].variant_name
        + ", stringify!("@
        + commands[i].method_name
        + "));
}
"@;
    crate::text::lemma_holds_ends(part, seq![]);
    crate::text::lemma_holds_through(
        crate::macros::commands::handle_impl(names, commands),
        methods[i],
        part,
    );
}

/// The handle's method for a command with parameters takes them, counts the
/// command under its number and sends its variant with the arguments.
pub proof fn law_command_is_queued(names: NamesView, commands: Seq<CommandView>, i: int)
    requires
        0 <= i < commands.len(),
        commands[i].kind is Plain,
        commands[i].params.len() > 0,
    ensures
        crate::text::holds(
            crate::macros::commands::handle_impl(names, commands),
            "pub fn "@
                + commands[i].method_name
                + "(&self, "@
                + crate::macros::commands::param_decls(commands[i].params)
                + ") {
    self.metrics.inc_enqueued("@
                + (crate::text::digits(i as nat) + "usize"@)
                + ");
    rillet::runtime::send_command(&self.cmd_tx, "@
                + names.command
                + "::"@
                + commands[i].variant_name
                + "("@
                + crate::macros::commands::param_names(commands[i].params)
                + "), "@,
        ),
        crate::text::holds(
            crate::macros::commands::handle_impl(names, commands),
            "    rillet::runtime::send_command(&self.cmd_tx, "@
                + names.command
                + "::"@
                + commands[i].variant_name
                + "("@
                + crate::macros::commands::param_names(commands[i].params)
                + "), stringify!("@
                + commands[i].method_name
                + "));
}
"@,
        ),
{
    let methods = lemma_handle_methods(names, commands);
    crate::text::lemma_concat_holds(methods, i);
    law_usize_literal(i as nat);
    let hargs = seq![names.handle, crate::text::concat(methods)];
    lemma_text_impl(hargs);
    crate::text::lemma_holds_middle(" {
    "@, crate::text::concat(methods), "
}
"@);
    crate::text::lemma_holds_through(crate::macros::commands::handle_impl(names, commands), " {
    "@ + crate::text::concat(methods) + "
}
"@, crate::text::concat(methods));
    crate::text::lemma_holds_through(
        crate::macros::commands::handle_impl(names, commands),
        crate::text::concat(methods),
        methods[i],
    );
    let args = seq![
        commands[i].method_name,
        crate::macros::commands::usize_literal(i as nat),
        names.command,
        commands[i].variant_name,
        crate::macros::commands::param_decls(commands[i].params),
        crate::macros::commands::param_names(commands[i].params),
    ];
    lemma_text_send_tuple(args);
    let part = "pub fn "@
        + commands[i].method_name
        + "(&self, "@
        + crate::macros::commands::param_decls(commands[i].params)
        + ") {
    self.metrics.inc_enqueued("@
        + (crate::text::digits(i as nat) + "usize"@)
        + ");
    rillet::runtime::send_command(&self.cmd_tx, "@
        + names.command
        + "::"@
        + commands[i].variant_name
        + "("@
        + crate::macros::commands::param_names(commands[i].params)
        + "), "@;
    crate::text::lemma_holds_through(
        crate::macros::commands::handle_impl(names, commands),
        methods[i],
        part,
    );
    let part1 = "    rillet::runtime::send_command(&self.cmd_tx, "@
        + names.command
        + "::"@
        + commands[i].variant_name
        + "("@
        + crate::macros::commands::param_names(commands[i].params)
        + "), stringify!("@
        + commands[i].method_name
        + "));
}
"@;
    crate::text::lemma_holds_through(
        crate::macros::commands::handle_impl(names, commands),
        methods[i],
        part1,
    );
}

/// The handle's method for an immediate op takes the op's parameters, counts
/// the command under its number, sends its variant with the arguments and a
/// resolver, and returns the operation that the resolver concludes.
pub proof fn law_immediate_op_is_queued(names: NamesView, commands: Seq<CommandView>, i: int)
    requires
        0 <= i < commands.len(),
        commands[i].kind is Immediate,
    ensures
        crate::text::holds(
            crate::macros::commands::handle_impl(names, commands),
            "pub fn "@
                + commands[i].method_name
                + "(&self, "@
                + crate::macros::commands::param_decls(commands[i].params)
                + ") -> rillet::op::Op<"@
                + ("<fn() "@ + commands[i].kind->Immediate_output + " as rillet::op::Outcome>::Reason"@)
                + "> {
    self.metrics.inc_enqueued("@
                + (crate::text::digits(i as nat) + "usize"@)
                + ");
    let (__op, __resolver) = rillet::op::Op::__rillet_pair(None);
"@,
        ),
        crate::text::holds(
            crate::macros::commands::handle_impl(names, commands),
            "    let (__op, __resolver) = rillet::op::Op::__rillet_pair(None);
    rillet::runtime::send_command(&self.cmd_tx, "@
                + names.command
                + "::"@
                + commands[i].variant_name
                + "("@
                + crate::macros::commands::names_and_commas(commands[i].params)
                + " __resolver), stringify!("@
                + commands[i].method_name
                + "));
    __op
}
"@,
        ),
{
    let methods = lemma_handle_methods(names, commands);
    crate::text::lemma_concat_holds(methods, i);
    law_usize_literal(i as nat);
    lemma_op_types(commands[i].kind->Immediate_output);
    let hargs = seq![names.handle, crate::text::concat(methods)];
    lemma_text_impl(hargs);
    crate::text::lemma_holds_middle(" {
    "@, crate::text::concat(methods), "
}
"@);
    crate::text::lemma_holds_through(crate::macros::commands::handle_impl(names, commands), " {
    "@ + crate::text::concat(methods) + "
}
"@, crate::text::concat(methods));
    crate::text::lemma_holds_through(
        crate::macros::commands::handle_impl(names, commands),
        crate::text::concat(methods),
        methods[i],
    );
    let args = seq![
        commands[i].method_name,
        crate::macros::commands::usize_literal(i as nat),
        names.command,
        commands[i].variant_name,
        crate::macros::commands::param_decls(commands[i].params),
        crate::macros::commands::names_and_commas(commands[i].params),
        crate::text::filled(IMMEDIATE_REASON@, seq![commands[i].kind->Immediate_output]),
    ];
    lemma_text_send_immediate(args);
    let part = "pub fn "@
        + commands[i].method_name
        + "(&self, "@
        + crate::macros::commands::param_decls(commands[i].params)
        + ") -> rillet::op::Op<"@
        + ("<fn() "@ + commands[i].kind->Immediate_output + " as rillet::op::Outcome>::Reason"@)
        + "> {
    self.metrics.inc_enqueued("@
        + (crate::text::digits(i as nat) + "usize"@)
        + ");
    let (__op, __resolver) = rillet::op::Op::__rillet_pair(None);
"@;
    crate::text::lemma_holds_through(
        crate::macros::commands::handle_impl(names, commands),
        methods[i],
        part,
    );
    let part1 = "    let (__op, __resolver) = rillet::op::Op::__rillet_pair(None);
    rillet::runtime::send_command(&self.cmd_tx, "@
        + names.command
        + "::"@
        + commands[i].variant_name
        + "("@
        + crate::macros::commands::names_and_commas(commands[i].params)
        + " __resolver), stringify!("@
        + commands[i].method_name
        + "));
    __op
}
"@;
    crate::text::lemma_holds_through(
        crate::macros::commands::handle_impl(names, commands),
        methods[i],
        part1,
    );
}

/// The handle's method for a deferred op calls the service's method of the
/// same name for the key and the deadline, counts the command under its
/// number, sends its variant with the key and a resolver, and returns the
/// operation that the resolver concludes.
pub proof fn law_deferred_op_is_queued(names: NamesView, commands: Seq<CommandView>, i: int)
    requires
        0 <= i < commands.len(),
        commands[i].kind is Deferred,
    ensures
        crate::text::holds(
            crate::macros::commands::handle_impl(names, commands),
            "pub fn "@
                + commands[i].method_name
                + "(&self, "@
                + crate::macros::commands::param_decls(commands[i].params)
                + ") -> rillet::op::Op<"@
                + ("<fn() "@ + commands[i].kind->Deferred_output + " as rillet::op::Deferral>::Reason"@)
                + "> {
    self.metrics.inc_enqueued("@
                + (crate::text::digits(i as nat) + "usize"@)
                + ");
"@,
        ),
        crate::text::holds(
            crate::macros::commands::handle_impl(names, commands),
            "    self.metrics.inc_enqueued("@
                + (crate::text::digits(i as nat) + "usize"@)
                + ");
    let (__key, __deadline) = "@
                + names.service
                + "::"@
                + commands[i].method_name
                + "("@
                + crate::macros::commands::param_names(commands[i].params)
                + ").__rillet_parts();
    let (__op, __resolver) = rillet::op::Op::__rillet_pair(__deadline);
"@,
        ),
        crate::text::holds(
            crate::macros::commands::handle_impl(names, commands),
            "    let (__op, __resolver) = rillet::op::Op::__rillet_pair(__deadline);
    rillet::runtime::send_command(&self.cmd_tx, "@
                + names.command
                + "::"@
                + commands[i].variant_name
                + "(__key, __resolver), stringify!("@
                + commands[i].method_name
                + "));
    __op
}
"@,
        ),
{
    let methods = lemma_handle_methods(names, commands);
    crate::text::lemma_concat_holds(methods, i);
    law_usize_literal(i as nat);
    lemma_op_types(commands[i].kind->Deferred_output);
    let hargs = seq![names.handle, crate::text::concat(methods)];
    lemma_text_impl(hargs);
    crate::text::lemma_holds_middle(" {
    "@, crate::text::concat(methods), "
}
"@);
    crate::text::lemma_holds_through(crate::macros::commands::handle_impl(names, commands), " {
    "@ + crate::text::concat(methods) + "
}
"@, crate::text::concat(methods));
    crate::text::lemma_holds_through(
        crate::macros::commands::handle_impl(names, commands),
        crate::text::concat(methods),
        methods[i],
    );
    let args = seq![
        commands[i].method_name,
        crate::macros::commands::usize_literal(i as nat),
        names.command,
        commands[i].variant_name,
        crate::macros::commands::param_decls(commands[i].params),
        crate::macros::commands::param_names(commands[i].params),
        crate::text::filled(DEFERRED_REASON@, seq![commands[i].kind->Deferred_output]),
        names.service,
    ];
    lemma_text_send_deferred(args);
    let part = "pub fn "@
        + commands[i].method_name
        + "(&self, "@
        + crate::macros::commands::param_decls(commands[i].params)
        + ") -> rillet::op::Op<"@
        + ("<fn() "@ + commands[i].kind->Deferred_output + " as rillet::op::Deferral>::Reason"@)
        + "> {
    self.metrics.inc_enqueued("@
        + (crate::text::digits(i as nat) + "usize"@)
        + ");
"@;
    crate::text::lemma_holds_through(
        crate::macros::commands::handle_impl(names, commands),
        methods[i],
        part,
    );
    let part1 = "    self.metrics.inc_enqueued("@
        + (crate::text::digits(i as nat) + "usize"@)
        + ");
    let (__key, __deadline) = "@
        + names.service
        + "::"@
        + commands[i].method_name
        + "("@
        + crate::macros::commands::param_names(commands[i].params)
        + ").__rillet_parts();
    let (__op, __resolver) = rillet::op::Op::__rillet_pair(__deadline);
"@;
    crate::text::lemma_holds_through(
        crate::macros::commands::handle_impl(names, commands),
        methods[i],
        part1,
    );
    let part2 = "    let (__op, __resolver) = rillet::op::Op::__rillet_pair(__deadline);
    rillet::runtime::send_command(&self.cmd_tx, "@
        + names.command
        + "::"@
        + commands[i].variant_name
        + "(__key, __resolver), stringify!("@
        + commands[i].method_name
        + "));
    __op
}
"@;
    crate::text::lemma_holds_through(
        crate::macros::commands::handle_impl(names, commands),
        methods[i],
        part2,
    );
}

/// The handle's queueing methods are one for each command, in their order, and
/// no others.
pub proof fn law_handle_has_each_method(names: NamesView, commands: Seq<CommandView>) -> (methods: Seq<Seq<char>>)
    ensures
        methods.len() == commands.len(),
        forall|i: int| 0 <= i < commands.len() ==> crate::text::holds(#[trigger] methods[i], "pub fn "@ + commands[i].method_name + "(&self"@),
        crate::macros::commands::handle_impl(names, commands) == "impl "@
            + names.handle
            + " {
    "@
            + crate::text::concat(methods)
            + "
}
"@,
{
    let methods = lemma_handle_methods(names, commands);
    assert forall|i: int| 0 <= i < commands.len() implies crate::text::holds(#[trigger] methods[i], "pub fn "@ + commands[i].method_name + "(&self"@) by {
        match commands[i].kind {
            CommandKindView::Plain => {
                if commands[i].params.len() == 0 {
                    let args = seq![
                        commands[i].method_name,
                        crate::macros::commands::usize_literal(i as nat),
                        names.command,
                        commands[i].variant_name,
                    ];
                    lemma_text_send_unit(args);
                } else {
                    let args = seq![
                        commands[i].method_name,
                        crate::macros::commands::usize_literal(i as nat),
                        names.command,
                        commands[i].variant_name,
                        crate::macros::commands::param_decls(commands[i].params),
                        crate::macros::commands::param_names(commands[i].params),
                    ];
                    lemma_text_send_tuple(args);
                }
            },
            CommandKindView::Immediate { output } => {
                let args = seq![
                    commands[i].method_name,
                    crate::macros::commands::usize_literal(i as nat),
                    names.command,
                    commands[i].variant_name,
                    crate::macros::commands::param_decls(commands[i].params),
                    crate::macros::commands::names_and_commas(commands[i].params),
                    crate::text::filled(IMMEDIATE_REASON@, seq![output]),
                ];
                lemma_text_send_immediate(args);
            },
            CommandKindView::Deferred { output, .. } => {
                let args = seq![
                    commands[i].method_name,
                    crate::macros::commands::usize_literal(i as nat),
                    names.command,
                    commands[i].variant_name,
                    crate::macros::commands::param_decls(commands[i].params),
                    crate::macros::commands::param_names(commands[i].params),
                    crate::text::filled(DEFERRED_REASON@, seq![output]),
                    names.service,
                ];
                lemma_text_send_deferred(args);
            },
        }
    }
    methods
}

/// The handle's statistics run over all commands, each with its own name and
/// counters.
pub proof fn law_statistics_cover_each_command(names: NamesView, commands: Seq<CommandView>)
    ensures
        crate::macros::commands::metrics_impl(names, commands) == "impl "@
            + names.handle
            + " {
    /// Returns per-command statistics.
    pub fn command_stats(&self) -> impl Iterator<Item = rillet::metrics::CommandStats> + '_ {
        (0.."@
            + (crate::text::digits(commands.len()) + "usize"@)
            + ").map(move |i| rillet::metrics::CommandStats {
            name: "@
            + names.command
            + "::NAMES[i],
            depth: self.metrics.command_depth(i),
            total_enqueued: self.metrics.command_enqueued(i),
            total_processed: self.metrics.command_processed(i),
        })
    }

    /// Returns aggregate statistics computed from depth samples.
    pub fn aggregate_stats(&self) -> rillet::metrics::AggregateStats {
        self.metrics.aggregate_stats()
    }
}
"@,
{
    law_usize_literal(commands.len());
    let args = seq![
        names.handle,
        crate::macros::commands::usize_literal(commands.len()),
        names.command,
    ];
    lemma_text_metrics_impl(args);
}

/// What the text of `USIZE` says, whatever fills it.
proof fn lemma_text_usize(args: Seq<Seq<char>>)
    requires
        args.len() >= 1,
    ensures
        crate::text::filled(USIZE@, args) == args[0] + "usize"@,
{
    reveal_strlit("$0usize");
    reveal_strlit("usize");
    let a = Seq::<char>::empty();
    let b = "usize"@;
    assert(USIZE@ =~= a + crate::text::hole(0) + b);
    crate::text::lemma_fills1(a, 0, b, args);
    assert(crate::text::filled(USIZE@, args) =~= args[0] + "usize"@);
}

/// What the text of `PARAM` says, whatever fills it.
proof fn lemma_text_param(args: Seq<Seq<char>>)
    requires
        args.len() >= 2,
    ensures
        crate::text::filled(PARAM@, args) == args[0] + ": "@ + args[1],
{
    reveal_strlit("$0: $1");
    reveal_strlit(": ");
    let a = Seq::<char>::empty();
    let b = ": "@;
    let c = Seq::<char>::empty();
    assert(PARAM@ =~= a + crate::text::hole(0) + b + crate::text::hole(1) + c);
    crate::text::lemma_fills2(a, 0, b, 1, c, args);
    assert(crate::text::filled(PARAM@, args) =~= args[0] + ": "@ + args[1]);
}

/// What the text of `POSITION` says, whatever fills it.
proof fn lemma_text_position(args: Seq<Seq<char>>)
    requires
        args.len() >= 1,
    ensures
        crate::text::filled(POSITION@, args) == "v"@ + args[0],
{
    reveal_strlit("v$0");
    reveal_strlit("v");
    let a = "v"@;
    let b = Seq::<char>::empty();
    assert(POSITION@ =~= a + crate::text::hole(0) + b);
    crate::text::lemma_fills1(a, 0, b, args);
    assert(crate::text::filled(POSITION@, args) =~= "v"@ + args[0]);
}

/// What the text of `NAME_AND_COMMA` says, whatever fills it.
proof fn lemma_text_name_and_comma(args: Seq<Seq<char>>)
    requires
        args.len() >= 1,
    ensures
        crate::text::filled(NAME_AND_COMMA@, args) == args[0] + ", "@,
{
    reveal_strlit("$0, ");
    reveal_strlit(", ");
    let a = Seq::<char>::empty();
    let b = ", "@;
    assert(NAME_AND_COMMA@ =~= a + crate::text::hole(0) + b);
    crate::text::lemma_fills1(a, 0, b, args);
    assert(crate::text::filled(NAME_AND_COMMA@, args) =~= args[0] + ", "@);
}

/// What the text of `QUOTED` says, whatever fills it.
proof fn lemma_text_quoted(args: Seq<Seq<char>>)
    requires
        args.len() >= 1,
    ensures
        crate::text::filled(QUOTED@, args) == "\""@ + args[0] + "\""@,
{
    reveal_strlit("\"$0\"");
    reveal_strlit("\"");
    let a = "\""@;
    let b = "\""@;
    assert(QUOTED@ =~= a + crate::text::hole(0) + b);
    crate::text::lemma_fills1(a, 0, b, args);
}

/// What the text of `COMMAND_ENUM` says, whatever fills it.
proof fn lemma_text_command_enum(args: Seq<Seq<char>>)
    requires
        args.len() >= 6,
    ensures
        crate::text::holds(
            crate::text::filled(COMMAND_ENUM@, args),
            "impl "@
                + args[0]
                + " {
    /// Number of command variants.
    const COUNT: usize = "@
                + args[2]
                + ";

    /// Array of command names for metrics.
    const NAMES: [&'static str; "@
                + args[2]
                + "] = ["@
                + args[3]
                + "];
"@,
        ),
        crate::text::holds(
            crate::text::filled(COMMAND_ENUM@, args),
            "fn index(&self) -> usize {
        "@
                + args[4]
                + "
    }
"@,
        ),
        crate::text::holds(
            crate::text::filled(COMMAND_ENUM@, args),
            "fn name(&self) -> &'static str {
        "@
                + args[5]
                + "
    }
"@,
        ),
        crate::text::holds(
            crate::text::filled(COMMAND_ENUM@, args),
            "enum "@
                + args[0]
                + " {
    "@
                + args[1]
                + "
}
"@,
        ),
{
    reveal_strlit("#[allow(clippy::enum_variant_names, clippy::module_name_repetitions)]
enum $0 {
    $1
}

impl $0 {
    /// Number of command variants.
    const COUNT: usize = $2;

    /// Array of command names for metrics.
    const NAMES: [&'static str; $2] = [$3];

    /// Returns the index of this command variant.
    #[inline]
    fn index(&self) -> usize {
        $4
    }

    /// Returns the name of this command variant.
    #[inline]
    fn name(&self) -> &'static str {
        $5
    }
}
");
    reveal_strlit("impl ");
    reveal_strlit(" {
    /// Number of command variants.
    const COUNT: usize = ");
    reveal_strlit(";

    /// Array of command names for metrics.
    const NAMES: [&'static str; ");
    reveal_strlit("] = [");
    reveal_strlit("];
");
    let a = "impl "@;
    let b = " {
    /// Number of command variants.
    const COUNT: usize = "@;
    let c = ";

    /// Array of command names for metrics.
    const NAMES: [&'static str; "@;
    let d = "] = ["@;
    let e = "];
"@;
    assert(COMMAND_ENUM@.subrange(90, 254) =~= a
        + crate::text::hole(0)
        + b
        + crate::text::hole(2)
        + c
        + crate::text::hole(2)
        + d
        + crate::text::hole(3)
        + e);
    crate::text::lemma_reads4(COMMAND_ENUM@, 90, a, 0, b, 2, c, 2, d, 3, e, args);
    reveal_strlit("fn index(&self) -> usize {
        ");
    reveal_strlit("
    }
");
    let a = "fn index(&self) -> usize {
        "@;
    let b = "
    }
"@;
    assert(COMMAND_ENUM@.subrange(324, 368) =~= a + crate::text::hole(4) + b);
    crate::text::lemma_reads1(COMMAND_ENUM@, 324, a, 4, b, args);
    reveal_strlit("fn name(&self) -> &'static str {
        ");
    let a = "fn name(&self) -> &'static str {
        "@;
    let b = "
    }
"@;
    assert(COMMAND_ENUM@.subrange(437, 487) =~= a + crate::text::hole(5) + b);
    crate::text::lemma_reads1(COMMAND_ENUM@, 437, a, 5, b, args);
    reveal_strlit("enum ");
    reveal_strlit(" {
    ");
    reveal_strlit("
}
");
    let a = "enum "@;
    let b = " {
    "@;
    let c = "
}
"@;
    assert(COMMAND_ENUM@.subrange(70, 89) =~= a
        + crate::text::hole(0)
        + b
        + crate::text::hole(1)
        + c);
    crate::text::lemma_reads2(COMMAND_ENUM@, 70, a, 0, b, 1, c, args);
}

/// What the text of `MATCH_SELF` says, whatever fills it.
proof fn lemma_text_match_self(args: Seq<Seq<char>>)
    requires
        args.len() >= 1,
    ensures
        crate::text::filled(MATCH_SELF@, args) == "match self {
    "@ + args[0] + "
}"@,
{
    reveal_strlit("match self {
    $0
}");
    reveal_strlit("match self {
    ");
    reveal_strlit("
}");
    let a = "match self {
    "@;
    let b = "
}"@;
    assert(MATCH_SELF@ =~= a + crate::text::hole(0) + b);
    crate::text::lemma_fills1(a, 0, b, args);
}

/// What the text of `UNIT_ARM` says, whatever fills it.
proof fn lemma_text_unit_arm(args: Seq<Seq<char>>)
    requires
        args.len() >= 2,
    ensures
        crate::text::filled(UNIT_ARM@, args) == "Self::"@ + args[0] + " => "@ + args[1] + ",
"@,
{
    reveal_strlit("Self::$0 => $1,
");
    reveal_strlit("Self::");
    reveal_strlit(" => ");
    reveal_strlit(",
");
    let a = "Self::"@;
    let b = " => "@;
    let c = ",
"@;
    assert(UNIT_ARM@ =~= a + crate::text::hole(0) + b + crate::text::hole(1) + c);
    crate::text::lemma_fills2(a, 0, b, 1, c, args);
}

/// What the text of `TUPLE_ARM` says, whatever fills it.
proof fn lemma_text_tuple_arm(args: Seq<Seq<char>>)
    requires
        args.len() >= 2,
    ensures
        crate::text::filled(TUPLE_ARM@, args) == "Self::"@
            + args[0]
            + "(..) => "@
            + args[1]
            + ",
"@,
{
    reveal_strlit("Self::$0(..) => $1,
");
    reveal_strlit("Self::");
    reveal_strlit("(..) => ");
    reveal_strlit(",
");
    let a = "Self::"@;
    let b = "(..) => "@;
    let c = ",
"@;
    assert(TUPLE_ARM@ =~= a + crate::text::hole(0) + b + crate::text::hole(1) + c);
    crate::text::lemma_fills2(a, 0, b, 1, c, args);
}

/// What the text of `IMMEDIATE_REASON` says, whatever fills it.
proof fn lemma_text_immediate_reason(args: Seq<Seq<char>>)
    requires
        args.len() >= 1,
    ensures
        crate::text::filled(IMMEDIATE_REASON@, args) == "<fn() "@
            + args[0]
            + " as rillet::op::Outcome>::Reason"@,
{
    reveal_strlit("<fn() $0 as rillet::op::Outcome>::Reason");
    reveal_strlit("<fn() ");
    reveal_strlit(" as rillet::op::Outcome>::Reason");
    let a = "<fn() "@;
    let b = " as rillet::op::Outcome>::Reason"@;
    assert(IMMEDIATE_REASON@ =~= a + crate::text::hole(0) + b);
    crate::text::lemma_fills1(a, 0, b, args);
}

/// What the text of `DEFERRED_REASON` says, whatever fills it.
proof fn lemma_text_deferred_reason(args: Seq<Seq<char>>)
    requires
        args.len() >= 1,
    ensures
        crate::text::filled(DEFERRED_REASON@, args) == "<fn() "@
            + args[0]
            + " as rillet::op::Deferral>::Reason"@,
{
    reveal_strlit("<fn() $0 as rillet::op::Deferral>::Reason");
    reveal_strlit("<fn() ");
    reveal_strlit(" as rillet::op::Deferral>::Reason");
    let a = "<fn() "@;
    let b = " as rillet::op::Deferral>::Reason"@;
    assert(DEFERRED_REASON@ =~= a + crate::text::hole(0) + b);
    crate::text::lemma_fills1(a, 0, b, args);
}

/// What the text of `DEFERRED_KEY` says, whatever fills it.
proof fn lemma_text_deferred_key(args: Seq<Seq<char>>)
    requires
        args.len() >= 1,
    ensures
        crate::text::filled(DEFERRED_KEY@, args) == "<fn() "@
            + args[0]
            + " as rillet::op::Deferral>::Key"@,
{
    reveal_strlit("<fn() $0 as rillet::op::Deferral>::Key");
    reveal_strlit("<fn() ");
    reveal_strlit(" as rillet::op::Deferral>::Key");
    let a = "<fn() "@;
    let b = " as rillet::op::Deferral>::Key"@;
    assert(DEFERRED_KEY@ =~= a + crate::text::hole(0) + b);
    crate::text::lemma_fills1(a, 0, b, args);
}

/// What the text of `TYPE_AND_COMMA` says, whatever fills it.
proof fn lemma_text_type_and_comma(args: Seq<Seq<char>>)
    requires
        args.len() >= 1,
    ensures
        crate::text::filled(TYPE_AND_COMMA@, args) == args[0] + ", "@,
{
    reveal_strlit("$0, ");
    reveal_strlit(", ");
    let a = Seq::<char>::empty();
    let b = ", "@;
    assert(TYPE_AND_COMMA@ =~= a + crate::text::hole(0) + b);
    crate::text::lemma_fills1(a, 0, b, args);
    assert(crate::text::filled(TYPE_AND_COMMA@, args) =~= args[0] + ", "@);
}

/// What the text of `UNIT_VARIANT` says, whatever fills it.
proof fn lemma_text_unit_variant(args: Seq<Seq<char>>)
    requires
        args.len() >= 1,
    ensures
        crate::text::filled(UNIT_VARIANT@, args) == args[0] + ",
"@,
{
    reveal_strlit("$0,
");
    reveal_strlit(",
");
    let a = Seq::<char>::empty();
    let b = ",
"@;
    assert(UNIT_VARIANT@ =~= a + crate::text::hole(0) + b);
    crate::text::lemma_fills1(a, 0, b, args);
    assert(crate::text::filled(UNIT_VARIANT@, args) =~= args[0] + ",
"@);
}

/// What the text of `TUPLE_VARIANT` says, whatever fills it.
proof fn lemma_text_tuple_variant(args: Seq<Seq<char>>)
    requires
        args.len() >= 2,
    ensures
        crate::text::filled(TUPLE_VARIANT@, args) == args[0] + "("@ + args[1] + "),
"@,
{
    reveal_strlit("$0($1),
");
    reveal_strlit("(");
    reveal_strlit("),
");
    let a = Seq::<char>::empty();
    let b = "("@;
    let c = "),
"@;
    assert(TUPLE_VARIANT@ =~= a + crate::text::hole(0) + b + crate::text::hole(1) + c);
    crate::text::lemma_fills2(a, 0, b, 1, c, args);
    assert(crate::text::filled(TUPLE_VARIANT@, args) =~= args[0] + "("@ + args[1] + "),
"@);
}

/// What the text of `IMMEDIATE_VARIANT` says, whatever fills it.
proof fn lemma_text_immediate_variant(args: Seq<Seq<char>>)
    requires
        args.len() >= 3,
    ensures
        crate::text::filled(IMMEDIATE_VARIANT@, args) == args[0]
            + "("@
            + args[1]
            + " rillet::op::Resolver<"@
            + args[2]
            + ">),
"@,
{
    reveal_strlit("$0($1 rillet::op::Resolver<$2>),
");
    reveal_strlit("(");
    reveal_strlit(" rillet::op::Resolver<");
    reveal_strlit(">),
");
    let a = Seq::<char>::empty();
    let b = "("@;
    let c = " rillet::op::Resolver<"@;
    let d = ">),
"@;
    assert(IMMEDIATE_VARIANT@ =~= a
        + crate::text::hole(0)
        + b
        + crate::text::hole(1)
        + c
        + crate::text::hole(2)
        + d);
    crate::text::lemma_fills3(a, 0, b, 1, c, 2, d, args);
    let part = args[0] + "("@ + args[1] + " rillet::op::Resolver<"@ + args[2] + ">),
"@;
    assert(crate::text::filled(IMMEDIATE_VARIANT@, args) =~= part);
}

/// What the text of `DEFERRED_VARIANT` says, whatever fills it.
proof fn lemma_text_deferred_variant(args: Seq<Seq<char>>)
    requires
        args.len() >= 3,
    ensures
        crate::text::filled(DEFERRED_VARIANT@, args) == args[0]
            + "("@
            + args[1]
            + ", rillet::op::Resolver<"@
            + args[2]
            + ">),
"@,
{
    reveal_strlit("$0($1, rillet::op::Resolver<$2>),
");
    reveal_strlit("(");
    reveal_strlit(", rillet::op::Resolver<");
    reveal_strlit(">),
");
    let a = Seq::<char>::empty();
    let b = "("@;
    let c = ", rillet::op::Resolver<"@;
    let d = ">),
"@;
    assert(DEFERRED_VARIANT@ =~= a
        + crate::text::hole(0)
        + b
        + crate::text::hole(1)
        + c
        + crate::text::hole(2)
        + d);
    crate::text::lemma_fills3(a, 0, b, 1, c, 2, d, args);
    let part = args[0] + "("@ + args[1] + ", rillet::op::Resolver<"@ + args[2] + ">),
"@;
    assert(crate::text::filled(DEFERRED_VARIANT@, args) =~= part);
}

/// What the text of `EXECUTE_UNIT` says, whatever fills it.
proof fn lemma_text_execute_unit(args: Seq<Seq<char>>)
    requires
        args.len() >= 3,
    ensures
        crate::text::filled(EXECUTE_UNIT@, args) == args[0]
            + "::"@
            + args[1]
            + " => state."@
            + args[2]
            + "(),
"@,
{
    reveal_strlit("$0::$1 => state.$2(),
");
    reveal_strlit("::");
    reveal_strlit(" => state.");
    reveal_strlit("(),
");
    let a = Seq::<char>::empty();
    let b = "::"@;
    let c = " => state."@;
    let d = "(),
"@;
    assert(EXECUTE_UNIT@ =~= a
        + crate::text::hole(0)
        + b
        + crate::text::hole(1)
        + c
        + crate::text::hole(2)
        + d);
    crate::text::lemma_fills3(a, 0, b, 1, c, 2, d, args);
    assert(crate::text::filled(EXECUTE_UNIT@, args) =~= args[0]
        + "::"@
        + args[1]
        + " => state."@
        + args[2]
        + "(),
"@);
}

/// What the text of `EXECUTE_TUPLE` says, whatever fills it.
proof fn lemma_text_execute_tuple(args: Seq<Seq<char>>)
    requires
        args.len() >= 4,
    ensures
        crate::text::filled(EXECUTE_TUPLE@, args) == args[0]
            + "::"@
            + args[1]
            + "("@
            + args[3]
            + ") => state."@
            + args[2]
            + "("@
            + args[3]
            + "),
"@,
{
    reveal_strlit("$0::$1($3) => state.$2($3),
");
    reveal_strlit("::");
    reveal_strlit("(");
    reveal_strlit(") => state.");
    reveal_strlit("),
");
    let a = Seq::<char>::empty();
    let b = "::"@;
    let c = "("@;
    let d = ") => state."@;
    let e = "("@;
    let f = "),
"@;
    assert(EXECUTE_TUPLE@ =~= a
        + crate::text::hole(0)
        + b
        + crate::text::hole(1)
        + c
        + crate::text::hole(3)
        + d
        + crate::text::hole(2)
        + e
        + crate::text::hole(3)
        + f);
    crate::text::lemma_fills5(a, 0, b, 1, c, 3, d, 2, e, 3, f, args);
    let part = args[0]
        + "::"@
        + args[1]
        + "("@
        + args[3]
        + ") => state."@
        + args[2]
        + "("@
        + args[3]
        + "),
"@;
    assert(crate::text::filled(EXECUTE_TUPLE@, args) =~= part);
}

/// What the text of `EXECUTE_IMMEDIATE` says, whatever fills it.
proof fn lemma_text_execute_immediate(args: Seq<Seq<char>>)
    requires
        args.len() >= 4,
    ensures
        crate::text::filled(EXECUTE_IMMEDIATE@, args) == args[0]
            + "::"@
            + args[1]
            + "("@
            + args[3]
            + " __resolver) => {
    let outcome = state."@
            + args[2]
            + "("@
            + args[3]
            + ");
    state.__rillet_ops.queue_conclusion(move || match outcome {
        Ok(()) => __resolver.succeed(),
        Err(reason) => __resolver.fail(reason),
    });
}
"@,
{
    reveal_strlit("$0::$1($3 __resolver) => {
    let outcome = state.$2($3);
    state.__rillet_ops.queue_conclusion(move || match outcome {
        Ok(()) => __resolver.succeed(),
        Err(reason) => __resolver.fail(reason),
    });
}
");
    reveal_strlit("::");
    reveal_strlit("(");
    reveal_strlit(" __resolver) => {
    let outcome = state.");
    reveal_strlit(");
    state.__rillet_ops.queue_conclusion(move || match outcome {
        Ok(()) => __resolver.succeed(),
        Err(reason) => __resolver.fail(reason),
    });
}
");
    let a = Seq::<char>::empty();
    let b = "::"@;
    let c = "("@;
    let d = " __resolver) => {
    let outcome = state."@;
    let e = "("@;
    let f = ");
    state.__rillet_ops.queue_conclusion(move || match outcome {
        Ok(()) => __resolver.succeed(),
        Err(reason) => __resolver.fail(reason),
    });
}
"@;
    assert(EXECUTE_IMMEDIATE@ =~= a
        + crate::text::hole(0)
        + b
        + crate::text::hole(1)
        + c
        + crate::text::hole(3)
        + d
        + crate::text::hole(2)
        + e
        + crate::text::hole(3)
        + f);
    crate::text::lemma_fills5(a, 0, b, 1, c, 3, d, 2, e, 3, f, args);
    let part = args[0] + "::"@ + args[1] + "("@ + args[3] + " __resolver) => {
    let outcome = state."@ + args[2] + "("@ + args[3] + ");
    state.__rillet_ops.queue_conclusion(move || match outcome {
        Ok(()) => __resolver.succeed(),
        Err(reason) => __resolver.fail(reason),
    });
}
"@;
    assert(crate::text::filled(EXECUTE_IMMEDIATE@, args) =~= part);
}

/// What the text of `EXECUTE_DEFERRED` says, whatever fills it.
proof fn lemma_text_execute_deferred(args: Seq<Seq<char>>)
    requires
        args.len() >= 5,
    ensures
        crate::text::filled(EXECUTE_DEFERRED@, args) == args[0]
            + "::"@
            + args[1]
            + "(key, resolver) => {
    state.__rillet_ops.insert(\""@
            + args[2]
            + "\", key.clone(), resolver, || "@
            + args[4]
            + ");
    state."@
            + args[3]
            + "(key);
}
"@,
{
    reveal_strlit("$0::$1(key, resolver) => {
    state.__rillet_ops.insert(\"$2\", key.clone(), resolver, || $4);
    state.$3(key);
}
");
    reveal_strlit("::");
    reveal_strlit("(key, resolver) => {
    state.__rillet_ops.insert(\"");
    reveal_strlit("\", key.clone(), resolver, || ");
    reveal_strlit(");
    state.");
    reveal_strlit("(key);
}
");
    let a = Seq::<char>::empty();
    let b = "::"@;
    let c = "(key, resolver) => {
    state.__rillet_ops.insert(\""@;
    let d = "\", key.clone(), resolver, || "@;
    let e = ");
    state."@;
    let f = "(key);
}
"@;
    assert(EXECUTE_DEFERRED@ =~= a
        + crate::text::hole(0)
        + b
        + crate::text::hole(1)
        + c
        + crate::text::hole(2)
        + d
        + crate::text::hole(4)
        + e
        + crate::text::hole(3)
        + f);
    crate::text::lemma_fills5(a, 0, b, 1, c, 2, d, 4, e, 3, f, args);
    let part = args[0] + "::"@ + args[1] + "(key, resolver) => {
    state.__rillet_ops.insert(\""@ + args[2] + "\", key.clone(), resolver, || "@ + args[4] + ");
    state."@ + args[3] + "(key);
}
"@;
    assert(crate::text::filled(EXECUTE_DEFERRED@, args) =~= part);
}

/// What the text of `EXECUTE_IMPL` says, whatever fills it.
proof fn lemma_text_execute_impl(args: Seq<Seq<char>>)
    requires
        args.len() >= 3,
    ensures
        crate::text::filled(EXECUTE_IMPL@, args) == "impl "@
            + args[0]
            + " {
    fn execute(self, state: &mut "@
            + args[1]
            + ") {
        match self {
            "@
            + args[2]
            + "
        }
    }
}
"@,
        crate::text::holds(
            crate::text::filled(EXECUTE_IMPL@, args),
            "match self {
            "@
                + args[2]
                + "
        }"@,
        ),
{
    reveal_strlit("impl $0 {
    fn execute(self, state: &mut $1) {
        match self {
            $2
        }
    }
}
");
    reveal_strlit("impl ");
    reveal_strlit(" {
    fn execute(self, state: &mut ");
    reveal_strlit(") {
        match self {
            ");
    reveal_strlit("
        }
    }
}
");
    let a = "impl "@;
    let b = " {
    fn execute(self, state: &mut "@;
    let c = ") {
        match self {
            "@;
    let d = "
        }
    }
}
"@;
    assert(EXECUTE_IMPL@ =~= a
        + crate::text::hole(0)
        + b
        + crate::text::hole(1)
        + c
        + crate::text::hole(2)
        + d);
    crate::text::lemma_fills3(a, 0, b, 1, c, 2, d, args);
    reveal_strlit("match self {
            ");
    reveal_strlit("
        }");
    let a = "match self {
            "@;
    let b = "
        }"@;
    assert(EXECUTE_IMPL@.subrange(57, 94) =~= a + crate::text::hole(2) + b);
    crate::text::lemma_reads1(EXECUTE_IMPL@, 57, a, 2, b, args);
}

/// What the text of `IMPL` says, whatever fills it.
proof fn lemma_text_impl(args: Seq<Seq<char>>)
    requires
        args.len() >= 2,
    ensures
        crate::text::holds(crate::text::filled(IMPL@, args), " {
    "@ + args[1] + "
}
"@),
        crate::text::filled(IMPL@, args) == "impl "@ + args[0] + " {
    "@ + args[1] + "
}
"@,
{
    reveal_strlit("impl $0 {
    $1
}
");
    reveal_strlit(" {
    ");
    reveal_strlit("
}
");
    let a = " {
    "@;
    let b = "
}
"@;
    assert(IMPL@.subrange(7, 19) =~= a + crate::text::hole(1) + b);
    crate::text::lemma_reads1(IMPL@, 7, a, 1, b, args);
    reveal_strlit("impl ");
    let a = "impl "@;
    let b = " {
    "@;
    let c = "
}
"@;
    assert(IMPL@ =~= a + crate::text::hole(0) + b + crate::text::hole(1) + c);
    crate::text::lemma_fills2(a, 0, b, 1, c, args);
}

/// What the text of `CONCLUDE_METHODS` says, whatever fills it.
proof fn lemma_text_conclude_methods(args: Seq<Seq<char>>)
    requires
        args.len() >= 3,
    ensures
        crate::text::holds(
            crate::text::filled(CONCLUDE_METHODS@, args),
            "fn succeed_"@
                + args[0]
                + "(&self, key: &"@
                + args[1]
                + ") {
    self.__rillet_ops.succeed::<"@
                + args[1]
                + ", "@
                + args[2]
                + ">(\""@
                + args[0]
                + "\", key);
}
"@,
        ),
        crate::text::holds(
            crate::text::filled(CONCLUDE_METHODS@, args),
            "fn fail_"@
                + args[0]
                + "(&self, key: &"@
                + args[1]
                + ", reason: "@
                + args[2]
                + ") {
    self.__rillet_ops.fail::<"@
                + args[1]
                + ", "@
                + args[2]
                + ">(\""@
                + args[0]
                + "\", key, reason);
}
"@,
        ),
{
    reveal_strlit("/// Concludes the operation under a key successfully; a key with no
/// pending operation concludes nothing.
fn succeed_$0(&self, key: &$1) {
    self.__rillet_ops.succeed::<$1, $2>(\"$0\", key);
}

/// Concludes the operation under a key unsuccessfully; a key with no
/// pending operation concludes nothing.
fn fail_$0(&self, key: &$1, reason: $2) {
    self.__rillet_ops.fail::<$1, $2>(\"$0\", key, reason);
}
");
    reveal_strlit("fn succeed_");
    reveal_strlit("(&self, key: &");
    reveal_strlit(") {
    self.__rillet_ops.succeed::<");
    reveal_strlit(", ");
    reveal_strlit(">(\"");
    reveal_strlit("\", key);
}
");
    let a = "fn succeed_"@;
    let b = "(&self, key: &"@;
    let c = ") {
    self.__rillet_ops.succeed::<"@;
    let d = ", "@;
    let e = ">(\""@;
    let f = "\", key);
}
"@;
    assert(CONCLUDE_METHODS@.subrange(109, 196) =~= a
        + crate::text::hole(0)
        + b
        + crate::text::hole(1)
        + c
        + crate::text::hole(1)
        + d
        + crate::text::hole(2)
        + e
        + crate::text::hole(0)
        + f);
    crate::text::lemma_reads5(CONCLUDE_METHODS@, 109, a, 0, b, 1, c, 1, d, 2, e, 0, f, args);
    reveal_strlit("fn fail_");
    reveal_strlit(", reason: ");
    reveal_strlit(") {
    self.__rillet_ops.fail::<");
    reveal_strlit("\", key, reason);
}
");
    let a = "fn fail_"@;
    let b = "(&self, key: &"@;
    let c = ", reason: "@;
    let d = ") {
    self.__rillet_ops.fail::<"@;
    let e = ", "@;
    let f = ">(\""@;
    let g = "\", key, reason);
}
"@;
    assert(CONCLUDE_METHODS@.subrange(308, 409) =~= a
        + crate::text::hole(0)
        + b
        + crate::text::hole(1)
        + c
        + crate::text::hole(2)
        + d
        + crate::text::hole(1)
        + e
        + crate::text::hole(2)
        + f
        + crate::text::hole(0)
        + g);
    crate::text::lemma_reads6(CONCLUDE_METHODS@, 308, a, 0, b, 1, c, 2, d, 1, e, 2, f, 0, g, args);
}

/// What the text of `SEND_UNIT` says, whatever fills it.
proof fn lemma_text_send_unit(args: Seq<Seq<char>>)
    requires
        args.len() >= 4,
    ensures
        crate::text::filled(SEND_UNIT@, args) == "pub fn "@
            + args[0]
            + "(&self) {
    self.metrics.inc_enqueued("@
            + args[1]
            + ");
    rillet::runtime::send_command(&self.cmd_tx, "@
            + args[2]
            + "::"@
            + args[3]
            + ", stringify!("@
            + args[0]
            + "));
}
"@,
        crate::text::holds(
            crate::text::filled(SEND_UNIT@, args),
            "pub fn "@
                + args[0]
                + "(&self"@,
        ),
{
    reveal_strlit("pub fn $0(&self) {
    self.metrics.inc_enqueued($1);
    rillet::runtime::send_command(&self.cmd_tx, $2::$3, stringify!($0));
}
");
    reveal_strlit("pub fn ");
    reveal_strlit("(&self) {
    self.metrics.inc_enqueued(");
    reveal_strlit(");
    rillet::runtime::send_command(&self.cmd_tx, ");
    reveal_strlit("::");
    reveal_strlit(", stringify!(");
    reveal_strlit("));
}
");
    let a = "pub fn "@;
    let b = "(&self) {
    self.metrics.inc_enqueued("@;
    let c = ");
    rillet::runtime::send_command(&self.cmd_tx, "@;
    let d = "::"@;
    let e = ", stringify!("@;
    let f = "));
}
"@;
    assert(SEND_UNIT@ =~= a
        + crate::text::hole(0)
        + b
        + crate::text::hole(1)
        + c
        + crate::text::hole(2)
        + d
        + crate::text::hole(3)
        + e
        + crate::text::hole(0)
        + f);
    crate::text::lemma_fills5(a, 0, b, 1, c, 2, d, 3, e, 0, f, args);
    reveal_strlit("(&self");
    let a = "pub fn "@;
    let b = "(&self"@;
    assert(SEND_UNIT@.subrange(0, 15) =~= a + crate::text::hole(0) + b);
    crate::text::lemma_reads1(SEND_UNIT@, 0, a, 0, b, args);
}

/// What the text of `SEND_TUPLE` says, whatever fills it.
proof fn lemma_text_send_tuple(args: Seq<Seq<char>>)
    requires
        args.len() >= 6,
    ensures
        crate::text::holds(
            crate::text::filled(SEND_TUPLE@, args),
            "pub fn "@
                + args[0]
                + "(&self, "@
                + args[4]
                + ") {
    self.metrics.inc_enqueued("@
                + args[1]
                + ");
    rillet::runtime::send_command(&self.cmd_tx, "@
                + args[2]
                + "::"@
                + args[3]
                + "("@
                + args[5]
                + "), "@,
        ),
        crate::text::holds(
            crate::text::filled(SEND_TUPLE@, args),
            "    rillet::runtime::send_command(&self.cmd_tx, "@
                + args[2]
                + "::"@
                + args[3]
                + "("@
                + args[5]
                + "), stringify!("@
                + args[0]
                + "));
}
"@,
        ),
        crate::text::holds(
            crate::text::filled(SEND_TUPLE@, args),
            "pub fn "@
                + args[0]
                + "(&self"@,
        ),
{
    reveal_strlit("pub fn $0(&self, $4) {
    self.metrics.inc_enqueued($1);
    rillet::runtime::send_command(&self.cmd_tx, $2::$3($5), stringify!($0));
}
");
    reveal_strlit("pub fn ");
    reveal_strlit("(&self, ");
    reveal_strlit(") {
    self.metrics.inc_enqueued(");
    reveal_strlit(");
    rillet::runtime::send_command(&self.cmd_tx, ");
    reveal_strlit("::");
    reveal_strlit("(");
    reveal_strlit("), ");
    let a = "pub fn "@;
    let b = "(&self, "@;
    let c = ") {
    self.metrics.inc_enqueued("@;
    let d = ");
    rillet::runtime::send_command(&self.cmd_tx, "@;
    let e = "::"@;
    let f = "("@;
    let g = "), "@;
    assert(SEND_TUPLE@.subrange(0, 118) =~= a
        + crate::text::hole(0)
        + b
        + crate::text::hole(4)
        + c
        + crate::text::hole(1)
        + d
        + crate::text::hole(2)
        + e
        + crate::text::hole(3)
        + f
        + crate::text::hole(5)
        + g);
    crate::text::lemma_reads6(SEND_TUPLE@, 0, a, 0, b, 4, c, 1, d, 2, e, 3, f, 5, g, args);
    reveal_strlit("    rillet::runtime::send_command(&self.cmd_tx, ");
    reveal_strlit("), stringify!(");
    reveal_strlit("));
}
");
    let a = "    rillet::runtime::send_command(&self.cmd_tx, "@;
    let b = "::"@;
    let c = "("@;
    let d = "), stringify!("@;
    let e = "));
}
"@;
    assert(SEND_TUPLE@.subrange(58, 137) =~= a
        + crate::text::hole(2)
        + b
        + crate::text::hole(3)
        + c
        + crate::text::hole(5)
        + d
        + crate::text::hole(0)
        + e);
    crate::text::lemma_reads4(SEND_TUPLE@, 58, a, 2, b, 3, c, 5, d, 0, e, args);
    reveal_strlit("(&self");
    let a = "pub fn "@;
    let b = "(&self"@;
    assert(SEND_TUPLE@.subrange(0, 15) =~= a + crate::text::hole(0) + b);
    crate::text::lemma_reads1(SEND_TUPLE@, 0, a, 0, b, args);
}

/// What the text of `SEND_IMMEDIATE` says, whatever fills it.
proof fn lemma_text_send_immediate(args: Seq<Seq<char>>)
    requires
        args.len() >= 7,
    ensures
        crate::text::holds(
            crate::text::filled(SEND_IMMEDIATE@, args),
            "pub fn "@
                + args[0]
                + "(&self, "@
                + args[4]
                + ") -> rillet::op::Op<"@
                + args[6]
                + "> {
    self.metrics.inc_enqueued("@
                + args[1]
                + ");
    let (__op, __resolver) = rillet::op::Op::__rillet_pair(None);
"@,
        ),
        crate::text::holds(
            crate::text::filled(SEND_IMMEDIATE@, args),
            "    let (__op, __resolver) = rillet::op::Op::__rillet_pair(None);
    rillet::runtime::send_command(&self.cmd_tx, "@
                + args[2]
                + "::"@
                + args[3]
                + "("@
                + args[5]
                + " __resolver), stringify!("@
                + args[0]
                + "));
    __op
}
"@,
        ),
        crate::text::holds(
            crate::text::filled(SEND_IMMEDIATE@, args),
            "pub fn "@
                + args[0]
                + "(&self"@,
        ),
{
    reveal_strlit("pub fn $0(&self, $4) -> rillet::op::Op<$6> {
    self.metrics.inc_enqueued($1);
    let (__op, __resolver) = rillet::op::Op::__rillet_pair(None);
    rillet::runtime::send_command(&self.cmd_tx, $2::$3($5 __resolver), stringify!($0));
    __op
}
");
    reveal_strlit("pub fn ");
    reveal_strlit("(&self, ");
    reveal_strlit(") -> rillet::op::Op<");
    reveal_strlit("> {
    self.metrics.inc_enqueued(");
    reveal_strlit(");
    let (__op, __resolver) = rillet::op::Op::__rillet_pair(None);
");
    let a = "pub fn "@;
    let b = "(&self, "@;
    let c = ") -> rillet::op::Op<"@;
    let d = "> {
    self.metrics.inc_enqueued("@;
    let e = ");
    let (__op, __resolver) = rillet::op::Op::__rillet_pair(None);
"@;
    assert(SEND_IMMEDIATE@.subrange(0, 146) =~= a
        + crate::text::hole(0)
        + b
        + crate::text::hole(4)
        + c
        + crate::text::hole(6)
        + d
        + crate::text::hole(1)
        + e);
    crate::text::lemma_reads4(SEND_IMMEDIATE@, 0, a, 0, b, 4, c, 6, d, 1, e, args);
    reveal_strlit("    let (__op, __resolver) = rillet::op::Op::__rillet_pair(None);
    rillet::runtime::send_command(&self.cmd_tx, ");
    reveal_strlit("::");
    reveal_strlit("(");
    reveal_strlit(" __resolver), stringify!(");
    reveal_strlit("));
    __op
}
");
    let a = "    let (__op, __resolver) = rillet::op::Op::__rillet_pair(None);
    rillet::runtime::send_command(&self.cmd_tx, "@;
    let b = "::"@;
    let c = "("@;
    let d = " __resolver), stringify!("@;
    let e = "));
    __op
}
"@;
    assert(SEND_IMMEDIATE@.subrange(80, 245) =~= a
        + crate::text::hole(2)
        + b
        + crate::text::hole(3)
        + c
        + crate::text::hole(5)
        + d
        + crate::text::hole(0)
        + e);
    crate::text::lemma_reads4(SEND_IMMEDIATE@, 80, a, 2, b, 3, c, 5, d, 0, e, args);
    reveal_strlit("(&self");
    let a = "pub fn "@;
    let b = "(&self"@;
    assert(SEND_IMMEDIATE@.subrange(0, 15) =~= a + crate::text::hole(0) + b);
    crate::text::lemma_reads1(SEND_IMMEDIATE@, 0, a, 0, b, args);
}

/// What the text of `SEND_DEFERRED` says, whatever fills it.
proof fn lemma_text_send_deferred(args: Seq<Seq<char>>)
    requires
        args.len() >= 8,
    ensures
        crate::text::holds(
            crate::text::filled(SEND_DEFERRED@, args),
            "pub fn "@
                + args[0]
                + "(&self, "@
                + args[4]
                + ") -> rillet::op::Op<"@
                + args[6]
                + "> {
    self.metrics.inc_enqueued("@
                + args[1]
                + ");
"@,
        ),
        crate::text::holds(
            crate::text::filled(SEND_DEFERRED@, args),
            "    self.metrics.inc_enqueued("@
                + args[1]
                + ");
    let (__key, __deadline) = "@
                + args[7]
                + "::"@
                + args[0]
                + "("@
                + args[5]
                + ").__rillet_parts();
    let (__op, __resolver) = rillet::op::Op::__rillet_pair(__deadline);
"@,
        ),
        crate::text::holds(
            crate::text::filled(SEND_DEFERRED@, args),
            "    let (__op, __resolver) = rillet::op::Op::__rillet_pair(__deadline);
    rillet::runtime::send_command(&self.cmd_tx, "@
                + args[2]
                + "::"@
                + args[3]
                + "(__key, __resolver), stringify!("@
                + args[0]
                + "));
    __op
}
"@,
        ),
        crate::text::holds(
            crate::text::filled(SEND_DEFERRED@, args),
            "pub fn "@
                + args[0]
                + "(&self"@,
        ),
{
    reveal_strlit("pub fn $0(&self, $4) -> rillet::op::Op<$6> {
    self.metrics.inc_enqueued($1);
    let (__key, __deadline) = $7::$0($5).__rillet_parts();
    let (__op, __resolver) = rillet::op::Op::__rillet_pair(__deadline);
    rillet::runtime::send_command(&self.cmd_tx, $2::$3(__key, __resolver), stringify!($0));
    __op
}
");
    reveal_strlit("pub fn ");
    reveal_strlit("(&self, ");
    reveal_strlit(") -> rillet::op::Op<");
    reveal_strlit("> {
    self.metrics.inc_enqueued(");
    reveal_strlit(");
");
    let a = "pub fn "@;
    let b = "(&self, "@;
    let c = ") -> rillet::op::Op<"@;
    let d = "> {
    self.metrics.inc_enqueued("@;
    let e = ");
"@;
    assert(SEND_DEFERRED@.subrange(0, 80) =~= a
        + crate::text::hole(0)
        + b
        + crate::text::hole(4)
        + c
        + crate::text::hole(6)
        + d
        + crate::text::hole(1)
        + e);
    crate::text::lemma_reads4(SEND_DEFERRED@, 0, a, 0, b, 4, c, 6, d, 1, e, args);
    reveal_strlit("    self.metrics.inc_enqueued(");
    reveal_strlit(");
    let (__key, __deadline) = ");
    reveal_strlit("::");
    reveal_strlit("(");
    reveal_strlit(").__rillet_parts();
    let (__op, __resolver) = rillet::op::Op::__rillet_pair(__deadline);
");
    let a = "    self.metrics.inc_enqueued("@;
    let b = ");
    let (__key, __deadline) = "@;
    let c = "::"@;
    let d = "("@;
    let e = ").__rillet_parts();
    let (__op, __resolver) = rillet::op::Op::__rillet_pair(__deadline);
"@;
    assert(SEND_DEFERRED@.subrange(45, 211) =~= a
        + crate::text::hole(1)
        + b
        + crate::text::hole(7)
        + c
        + crate::text::hole(0)
        + d
        + crate::text::hole(5)
        + e);
    crate::text::lemma_reads4(SEND_DEFERRED@, 45, a, 1, b, 7, c, 0, d, 5, e, args);
    reveal_strlit("    let (__op, __resolver) = rillet::op::Op::__rillet_pair(__deadline);
    rillet::runtime::send_command(&self.cmd_tx, ");
    reveal_strlit("(__key, __resolver), stringify!(");
    reveal_strlit("));
    __op
}
");
    let a = "    let (__op, __resolver) = rillet::op::Op::__rillet_pair(__deadline);
    rillet::runtime::send_command(&self.cmd_tx, "@;
    let b = "::"@;
    let c = "(__key, __resolver), stringify!("@;
    let d = "));
    __op
}
"@;
    assert(SEND_DEFERRED@.subrange(139, 314) =~= a
        + crate::text::hole(2)
        + b
        + crate::text::hole(3)
        + c
        + crate::text::hole(0)
        + d);
    crate::text::lemma_reads3(SEND_DEFERRED@, 139, a, 2, b, 3, c, 0, d, args);
    reveal_strlit("(&self");
    let a = "pub fn "@;
    let b = "(&self"@;
    assert(SEND_DEFERRED@.subrange(0, 15) =~= a + crate::text::hole(0) + b);
    crate::text::lemma_reads1(SEND_DEFERRED@, 0, a, 0, b, args);
}

/// What the text of `METRICS_IMPL` says, whatever fills it.
proof fn lemma_text_metrics_impl(args: Seq<Seq<char>>)
    requires
        args.len() >= 3,
    ensures
        crate::text::filled(METRICS_IMPL@, args) == "impl "@
            + args[0]
            + " {
    /// Returns per-command statistics.
    pub fn command_stats(&self) -> impl Iterator<Item = rillet::metrics::CommandStats> + '_ {
        (0.."@
            + args[1]
            + ").map(move |i| rillet::metrics::CommandStats {
            name: "@
            + args[2]
            + "::NAMES[i],
            depth: self.metrics.command_depth(i),
            total_enqueued: self.metrics.command_enqueued(i),
            total_processed: self.metrics.command_processed(i),
        })
    }

    /// Returns aggregate statistics computed from depth samples.
    pub fn aggregate_stats(&self) -> rillet::metrics::AggregateStats {
        self.metrics.aggregate_stats()
    }
}
"@,
{
    reveal_strlit("impl $0 {
    /// Returns per-command statistics.
    pub fn command_stats(&self) -> impl Iterator<Item = rillet::metrics::CommandStats> + '_ {
        (0..$1).map(move |i| rillet::metrics::CommandStats {
            name: $2::NAMES[i],
            depth: self.metrics.command_depth(i),
            total_enqueued: self.metrics.command_enqueued(i),
            total_processed: self.metrics.command_processed(i),
        })
    }

    /// Returns aggregate statistics computed from depth samples.
    pub fn aggregate_stats(&self) -> rillet::metrics::AggregateStats {
        self.metrics.aggregate_stats()
    }
}
");
    reveal_strlit("impl ");
    reveal_strlit(" {
    /// Returns per-command statistics.
    pub fn command_stats(&self) -> impl Iterator<Item = rillet::metrics::CommandStats> + '_ {
        (0..");
    reveal_strlit(").map(move |i| rillet::metrics::CommandStats {
            name: ");
    reveal_strlit("::NAMES[i],
            depth: self.metrics.command_depth(i),
            total_enqueued: self.metrics.command_enqueued(i),
            total_processed: self.metrics.command_processed(i),
        })
    }

    /// Returns aggregate statistics computed from depth samples.
    pub fn aggregate_stats(&self) -> rillet::metrics::AggregateStats {
        self.metrics.aggregate_stats()
    }
}
");
    let a = "impl "@;
    let b = " {
    /// Returns per-command statistics.
    pub fn command_stats(&self) -> impl Iterator<Item = rillet::metrics::CommandStats> + '_ {
        (0.."@;
    let c = ").map(move |i| rillet::metrics::CommandStats {
            name: "@;
    let d = "::NAMES[i],
            depth: self.metrics.command_depth(i),
            total_enqueued: self.metrics.command_enqueued(i),
            total_processed: self.metrics.command_processed(i),
        })
    }

    /// Returns aggregate statistics computed from depth samples.
    pub fn aggregate_stats(&self) -> rillet::metrics::AggregateStats {
        self.metrics.aggregate_stats()
    }
}
"@;
    assert(METRICS_IMPL@ =~= a
        + crate::text::hole(0)
        + b
        + crate::text::hole(1)
        + c
        + crate::text::hole(2)
        + d);
    crate::text::lemma_fills3(a, 0, b, 1, c, 2, d, args);
}

} // verus!
