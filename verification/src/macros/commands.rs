//! The command queue of a service: its enum and its queueing methods.

use crate::macros::methods::{Param, ParamView};
use crate::text::{
    decimal, each, each_indexed, each_joined, fill1, fill2, fill3, fill4, fill5, fill6, fill7, fill8, numbered,
};
use vstd::prelude::*;

verus! {

/// How a command runs on the service loop.
pub enum CommandKind {
    /// It calls its method.
    Plain,
    /// It calls its method and concludes its operation with the result.
    Immediate { output: String },
    /// It parks its operation and calls the execute method with the key.
    Deferred { output: String, execute: String, timeout: String },
}

/// How a command runs, as mathematics.
pub enum CommandKindView {
    Plain,
    Immediate { output: Seq<char> },
    Deferred { output: Seq<char>, execute: Seq<char>, timeout: Seq<char> },
}

impl View for CommandKind {
    type V = CommandKindView;

    open spec fn view(&self) -> CommandKindView {
        match self {
            CommandKind::Plain => CommandKindView::Plain,
            CommandKind::Immediate { output } => CommandKindView::Immediate { output: output@ },
            CommandKind::Deferred { output, execute, timeout } => CommandKindView::Deferred {
                output: output@,
                execute: execute@,
                timeout: timeout@,
            },
        }
    }
}

/// A method that runs as a command.
pub struct CommandMethod {
    pub method_name: String,
    pub variant_name: String,
    pub params: Vec<Param>,
    pub kind: CommandKind,
}

/// A method that runs as a command, as mathematics.
pub struct CommandView {
    pub method_name: Seq<char>,
    pub variant_name: Seq<char>,
    pub params: Seq<ParamView>,
    pub kind: CommandKindView,
}

impl View for CommandMethod {
    type V = CommandView;

    open spec fn view(&self) -> CommandView {
        CommandView {
            method_name: self.method_name@,
            variant_name: self.variant_name@,
            params: crate::text::views_of(self.params@),
            kind: self.kind@,
        }
    }
}

/// The names that a service's items go by.
pub struct Names {
    pub service: String,
    pub handle: String,
    pub command: String,
}

/// The names, as mathematics.
pub struct NamesView {
    pub service: Seq<char>,
    pub handle: Seq<char>,
    pub command: Seq<char>,
}

impl View for Names {
    type V = NamesView;

    open spec fn view(&self) -> NamesView {
        NamesView { service: self.service@, handle: self.handle@, command: self.command@ }
    }
}

pub const COMMA: &'static str = ", ";

pub const USIZE: &'static str = "$0usize";

pub const PARAM: &'static str = "$0: $1";

pub const POSITION: &'static str = "v$0";

pub const QUOTED: &'static str = "\"$0\"";

/// A `usize` literal.
pub open spec fn usize_literal(n: nat) -> Seq<char> {
    crate::text::filled(USIZE@, seq![crate::text::digits(n)])
}

/// Writes a `usize` literal.
pub fn render_usize(n: usize) -> (text: String)
    ensures
        text@ == usize_literal(n as nat),
{
    fill1(USIZE, decimal(n as u64).as_str())
}

/// A parameter's declaration.
pub open spec fn param_decl(param: ParamView) -> Seq<char> {
    crate::text::filled(PARAM@, seq![param.name, param.ty])
}

fn render_param_decl(param: &Param) -> (text: String)
    ensures
        text@ == param_decl(param@),
{
    fill2(PARAM, param.name.as_str(), param.ty.as_str())
}

fn render_param_name(param: &Param) -> (text: String)
    ensures
        text@ == param@.name,
{
    param.name.clone()
}

fn render_param_type(param: &Param) -> (text: String)
    ensures
        text@ == param@.ty,
{
    param.ty.clone()
}

/// The declarations of parameters.
pub open spec fn param_decls(params: Seq<ParamView>) -> Seq<char> {
    crate::text::joined(params.map_values(|p: ParamView| param_decl(p)), COMMA@)
}

/// The names of parameters.
pub open spec fn param_names(params: Seq<ParamView>) -> Seq<char> {
    crate::text::joined(params.map_values(|p: ParamView| p.name), COMMA@)
}

/// The types of parameters.
pub open spec fn param_types(params: Seq<ParamView>) -> Seq<char> {
    crate::text::joined(params.map_values(|p: ParamView| p.ty), COMMA@)
}

/// Writes the declarations of parameters.
pub fn render_param_decls(params: &Vec<Param>) -> (text: String)
    ensures
        text@ == param_decls(crate::text::views_of(params@)),
{
    each_joined(params, COMMA, render_param_decl, Ghost(|p: ParamView| param_decl(p)))
}

/// Writes the names of parameters.
pub fn render_param_names(params: &Vec<Param>) -> (text: String)
    ensures
        text@ == param_names(crate::text::views_of(params@)),
{
    each_joined(params, COMMA, render_param_name, Ghost(|p: ParamView| p.name))
}

/// Writes the types of parameters.
pub fn render_param_types(params: &Vec<Param>) -> (text: String)
    ensures
        text@ == param_types(crate::text::views_of(params@)),
{
    each_joined(params, COMMA, render_param_type, Ghost(|p: ParamView| p.ty))
}

/// The reason an immediate op fails with, out of its handler's return type.
pub const IMMEDIATE_REASON: &'static str = "<fn() $0 as rillet::op::Outcome>::Reason";

/// The reason a deferred op fails with, out of its enqueue fn's return type.
pub const DEFERRED_REASON: &'static str = "<fn() $0 as rillet::op::Deferral>::Reason";

/// The key a deferred op is parked under.
pub const DEFERRED_KEY: &'static str = "<fn() $0 as rillet::op::Deferral>::Key";

pub const UNIT_VARIANT: &'static str = "$0,\n";

pub const TUPLE_VARIANT: &'static str = "$0($1),\n";

pub const IMMEDIATE_VARIANT: &'static str = "$0($1 rillet::op::Resolver<$2>),\n";

pub const DEFERRED_VARIANT: &'static str = "$0($1, rillet::op::Resolver<$2>),\n";

pub const TYPE_AND_COMMA: &'static str = "$0, ";

pub const NAME_AND_COMMA: &'static str = "$0, ";

pub const UNIT_ARM: &'static str = "Self::$0 => $1,\n";

pub const TUPLE_ARM: &'static str = "Self::$0(..) => $1,\n";

pub const NO_VARIANTS: &'static str =
    "unreachable!(\"empty command enum cannot be instantiated\")";

pub const MATCH_SELF: &'static str = "match self {
    $0
}";

pub const COMMAND_ENUM: &'static str =
    "#[allow(clippy::enum_variant_names, clippy::module_name_repetitions)]
enum $0 {
    $1
}

impl $0 {
    /// Number of command variants.
    const COUNT: usize = $2;

    /// Array of command names for metrics.
    const NAMES: [&'static str; $2] = [$3];

    /// Returns the index of this command variant.
    #[inline]
    fn index(&self) -> usize {
        $4
    }

    /// Returns the name of this command variant.
    #[inline]
    fn name(&self) -> &'static str {
        $5
    }
}
";

pub const EXECUTE_UNIT: &'static str = "$0::$1 => state.$2(),\n";

pub const EXECUTE_TUPLE: &'static str = "$0::$1($3) => state.$2($3),\n";

pub const EXECUTE_IMMEDIATE: &'static str = "$0::$1($3 __resolver) => {
    let outcome = state.$2($3);
    state.__rillet_ops.queue_conclusion(move || match outcome {
        Ok(()) => __resolver.succeed(),
        Err(reason) => __resolver.fail(reason),
    });
}
";

pub const EXECUTE_DEFERRED: &'static str = "$0::$1(key, resolver) => {
    state.__rillet_ops.insert(\"$2\", key.clone(), resolver, || $4);
    state.$3(key);
}
";

pub const EXECUTE_IMPL: &'static str = "impl $0 {
    fn execute(self, state: &mut $1) {
        match self {
            $2
        }
    }
}
";

pub const SEND_UNIT: &'static str = "pub fn $0(&self) {
    self.metrics.inc_enqueued($1);
    rillet::runtime::send_command(&self.cmd_tx, $2::$3, stringify!($0));
}
";

pub const SEND_TUPLE: &'static str = "pub fn $0(&self, $4) {
    self.metrics.inc_enqueued($1);
    rillet::runtime::send_command(&self.cmd_tx, $2::$3($5), stringify!($0));
}
";

pub const SEND_IMMEDIATE: &'static str = "pub fn $0(&self, $4) -> rillet::op::Op<$6> {
    self.metrics.inc_enqueued($1);
    let (__op, __resolver) = rillet::op::Op::__rillet_pair(None);
    rillet::runtime::send_command(&self.cmd_tx, $2::$3($5 __resolver), stringify!($0));
    __op
}
";

pub const SEND_DEFERRED: &'static str = "pub fn $0(&self, $4) -> rillet::op::Op<$6> {
    self.metrics.inc_enqueued($1);
    let (__key, __deadline) = $7::$0($5).__rillet_parts();
    let (__op, __resolver) = rillet::op::Op::__rillet_pair(__deadline);
    rillet::runtime::send_command(&self.cmd_tx, $2::$3(__key, __resolver), stringify!($0));
    __op
}
";

pub const CONCLUDE_METHODS: &'static str =
    "/// Concludes the operation under a key successfully; a key with no
/// pending operation concludes nothing.
fn succeed_$0(&self, key: &$1) {
    self.__rillet_ops.succeed::<$1, $2>(\"$0\", key);
}

/// Concludes the operation under a key unsuccessfully; a key with no
/// pending operation concludes nothing.
fn fail_$0(&self, key: &$1, reason: $2) {
    self.__rillet_ops.fail::<$1, $2>(\"$0\", key, reason);
}
";

pub const IMPL: &'static str = "impl $0 {
    $1
}
";

pub const METRICS_IMPL: &'static str = "impl $0 {
    /// Returns per-command statistics.
    pub fn command_stats(&self) -> impl Iterator<Item = rillet::metrics::CommandStats> + '_ {
        (0..$1).map(move |i| rillet::metrics::CommandStats {
            name: $2::NAMES[i],
            depth: self.metrics.command_depth(i),
            total_enqueued: self.metrics.command_enqueued(i),
            total_processed: self.metrics.command_processed(i),
        })
    }

    /// Returns aggregate statistics computed from depth samples.
    pub fn aggregate_stats(&self) -> rillet::metrics::AggregateStats {
        self.metrics.aggregate_stats()
    }
}
";

/// Whether a command's variant carries nothing.
pub open spec fn is_unit(command: CommandView) -> bool {
    command.params.len() == 0 && command.kind is Plain
}

fn unit(command: &CommandMethod) -> (unit: bool)
    ensures
        unit == is_unit(command@),
{
    match command.kind {
        CommandKind::Plain => command.params.len() == 0,
        _ => false,
    }
}

/// The declaration of a command's variant.
pub open spec fn enum_variant(command: CommandView) -> Seq<char> {
    let variant = command.variant_name;
    match command.kind {
        CommandKindView::Plain => if command.params.len() == 0 {
            crate::text::filled(UNIT_VARIANT@, seq![variant])
        } else {
            crate::text::filled(TUPLE_VARIANT@, seq![variant, param_types(command.params)])
        },
        CommandKindView::Immediate { output } => crate::text::filled(
            IMMEDIATE_VARIANT@,
            seq![
                variant,
                crate::text::concat(
                    command.params.map_values(
                        |p: ParamView| crate::text::filled(TYPE_AND_COMMA@, seq![p.ty]),
                    ),
                ),
                crate::text::filled(IMMEDIATE_REASON@, seq![output]),
            ],
        ),
        CommandKindView::Deferred { output, .. } => crate::text::filled(
            DEFERRED_VARIANT@,
            seq![
                variant,
                crate::text::filled(DEFERRED_KEY@, seq![output]),
                crate::text::filled(DEFERRED_REASON@, seq![output]),
            ],
        ),
    }
}

fn render_type_and_comma(param: &Param) -> (text: String)
    ensures
        text@ == crate::text::filled(TYPE_AND_COMMA@, seq![param@.ty]),
{
    fill1(TYPE_AND_COMMA, param.ty.as_str())
}

fn render_name_and_comma(param: &Param) -> (text: String)
    ensures
        text@ == crate::text::filled(NAME_AND_COMMA@, seq![param@.name]),
{
    fill1(NAME_AND_COMMA, param.name.as_str())
}

fn render_enum_variant(command: &CommandMethod) -> (text: String)
    ensures
        text@ == enum_variant(command@),
{
    let variant = command.variant_name.as_str();
    match &command.kind {
        CommandKind::Plain => if command.params.len() == 0 {
            fill1(UNIT_VARIANT, variant)
        } else {
            fill2(TUPLE_VARIANT, variant, render_param_types(&command.params).as_str())
        },
        CommandKind::Immediate { output } => {
            let types = each(
                &command.params,
                render_type_and_comma,
                Ghost(|p: ParamView| crate::text::filled(TYPE_AND_COMMA@, seq![p.ty])),
            );
            let reason = fill1(IMMEDIATE_REASON, output.as_str());
            fill3(IMMEDIATE_VARIANT, variant, types.as_str(), reason.as_str())
        },
        CommandKind::Deferred { output, .. } => {
            let key = fill1(DEFERRED_KEY, output.as_str());
            let reason = fill1(DEFERRED_REASON, output.as_str());
            fill3(DEFERRED_VARIANT, variant, key.as_str(), reason.as_str())
        },
    }
}

/// An arm for a command's variant, whatever it carries.
pub open spec fn variant_arm(command: CommandView, result: Seq<char>) -> Seq<char> {
    if is_unit(command) {
        crate::text::filled(UNIT_ARM@, seq![command.variant_name, result])
    } else {
        crate::text::filled(TUPLE_ARM@, seq![command.variant_name, result])
    }
}

fn render_variant_arm(command: &CommandMethod, result: &str) -> (text: String)
    ensures
        text@ == variant_arm(command@, result@),
{
    if unit(command) {
        fill2(UNIT_ARM, command.variant_name.as_str(), result)
    } else {
        fill2(TUPLE_ARM, command.variant_name.as_str(), result)
    }
}

/// The name of a command as a string literal.
pub open spec fn quoted_name(command: CommandView) -> Seq<char> {
    crate::text::filled(QUOTED@, seq![command.method_name])
}

fn render_quoted_name(command: &CommandMethod) -> (text: String)
    ensures
        text@ == quoted_name(command@),
{
    fill1(QUOTED, command.method_name.as_str())
}

/// The body that matches on a command's variant.
pub open spec fn match_body(commands: Seq<CommandView>, arms: Seq<char>) -> Seq<char> {
    if commands.len() == 0 {
        NO_VARIANTS@
    } else {
        crate::text::filled(MATCH_SELF@, seq![arms])
    }
}

/// The command enum with its indices and names.
pub open spec fn command_enum(names: NamesView, commands: Seq<CommandView>) -> Seq<char> {
    crate::text::filled(
        COMMAND_ENUM@,
        seq![
            names.command,
            crate::text::concat(commands.map_values(|c: CommandView| enum_variant(c))),
            usize_literal(commands.len()),
            crate::text::joined(commands.map_values(|c: CommandView| quoted_name(c)), COMMA@),
            match_body(
                commands,
                crate::text::concat(
                    commands.map(|i: int, c: CommandView| variant_arm(c, usize_literal(i as nat))),
                ),
            ),
            match_body(
                commands,
                crate::text::concat(
                    commands.map_values(|c: CommandView| variant_arm(c, quoted_name(c))),
                ),
            ),
        ],
    )
}

fn render_index_arm(i: usize, command: &CommandMethod) -> (text: String)
    ensures
        text@ == variant_arm(command@, usize_literal(i as nat)),
{
    render_variant_arm(command, render_usize(i).as_str())
}

fn render_name_arm(command: &CommandMethod) -> (text: String)
    ensures
        text@ == variant_arm(command@, quoted_name(command@)),
{
    render_variant_arm(command, render_quoted_name(command).as_str())
}

fn render_match_body(commands: &Vec<CommandMethod>, arms: &str) -> (text: String)
    ensures
        text@ == match_body(crate::text::views_of(commands@), arms@),
{
    if commands.len() == 0 {
        NO_VARIANTS.to_owned()
    } else {
        fill1(MATCH_SELF, arms)
    }
}

fn render_command_enum(names: &Names, commands: &Vec<CommandMethod>) -> (text: String)
    ensures
        text@ == command_enum(names@, crate::text::views_of(commands@)),
{
    let variants = each(commands, render_enum_variant, Ghost(|c: CommandView| enum_variant(c)));
    let count = render_usize(commands.len());
    let quoted = each_joined(
        commands,
        COMMA,
        render_quoted_name,
        Ghost(|c: CommandView| quoted_name(c)),
    );
    let index_arms = each_indexed(
        commands,
        render_index_arm,
        Ghost(|i: int, c: CommandView| variant_arm(c, usize_literal(i as nat))),
    );
    let name_arms = each(
        commands,
        render_name_arm,
        Ghost(|c: CommandView| variant_arm(c, quoted_name(c))),
    );
    fill6(
        COMMAND_ENUM,
        names.command.as_str(),
        variants.as_str(),
        count.as_str(),
        quoted.as_str(),
        render_match_body(commands, index_arms.as_str()).as_str(),
        render_match_body(commands, name_arms.as_str()).as_str(),
    )
}

/// The names of a variant's fields where a command is matched.
pub open spec fn positions(n: nat) -> Seq<char> {
    crate::text::joined(crate::text::numbered_parts(POSITION@, n), COMMA@)
}

/// The same names, each with a comma behind it.
pub open spec fn positions_and_commas(n: nat) -> Seq<char> {
    if n == 0 {
        seq![]
    } else {
        crate::text::filled(NAME_AND_COMMA@, seq![positions(n)])
    }
}

fn render_positions_and_commas(n: usize) -> (text: String)
    ensures
        text@ == positions_and_commas(n as nat),
{
    if n == 0 {
        let empty = String::new();
        assert(empty@ =~= seq![]);
        empty
    } else {
        fill1(NAME_AND_COMMA, numbered(POSITION, n, COMMA).as_str())
    }
}

/// The arm that runs a command.
pub open spec fn execute_arm(names: NamesView, command: CommandView) -> Seq<char> {
    let variant = command.variant_name;
    let method = command.method_name;
    let n = command.params.len();
    match command.kind {
        CommandKindView::Plain => if n == 0 {
            crate::text::filled(EXECUTE_UNIT@, seq![names.command, variant, method])
        } else {
            crate::text::filled(EXECUTE_TUPLE@, seq![names.command, variant, method, positions(n)])
        },
        CommandKindView::Immediate { .. } => crate::text::filled(
            EXECUTE_IMMEDIATE@,
            seq![names.command, variant, method, positions_and_commas(n)],
        ),
        CommandKindView::Deferred { execute, timeout, .. } => crate::text::filled(
            EXECUTE_DEFERRED@,
            seq![names.command, variant, method, execute, timeout],
        ),
    }
}

fn render_execute_arm(names: &Names, command: &CommandMethod) -> (text: String)
    ensures
        text@ == execute_arm(names@, command@),
{
    let of = names.command.as_str();
    let variant = command.variant_name.as_str();
    let method = command.method_name.as_str();
    let n = command.params.len();
    match &command.kind {
        CommandKind::Plain => if n == 0 {
            fill3(EXECUTE_UNIT, of, variant, method)
        } else {
            let positions = numbered(POSITION, n, COMMA);
            fill4(EXECUTE_TUPLE, of, variant, method, positions.as_str())
        },
        CommandKind::Immediate { .. } => {
            let positions = render_positions_and_commas(n);
            fill4(EXECUTE_IMMEDIATE, of, variant, method, positions.as_str())
        },
        CommandKind::Deferred { execute, timeout, .. } => fill5(
            EXECUTE_DEFERRED,
            of,
            variant,
            method,
            execute.as_str(),
            timeout.as_str(),
        ),
    }
}

/// The method that runs a command.
pub open spec fn execute_impl(names: NamesView, commands: Seq<CommandView>) -> Seq<char> {
    crate::text::filled(
        EXECUTE_IMPL@,
        seq![
            names.command,
            names.service,
            crate::text::concat(commands.map_values(|c: CommandView| execute_arm(names, c))),
        ],
    )
}

fn render_execute_impl(names: &Names, commands: &Vec<CommandMethod>) -> (text: String)
    ensures
        text@ == execute_impl(names@, crate::text::views_of(commands@)),
{
    let arm = |c: &CommandMethod| -> (text: String)
        ensures
            text@ == execute_arm(names@, c@),
        { render_execute_arm(names, c) };
    let arms = each(commands, arm, Ghost(|c: CommandView| execute_arm(names@, c)));
    fill3(EXECUTE_IMPL, names.command.as_str(), names.service.as_str(), arms.as_str())
}

/// The names of an op's parameters, each with a comma behind it.
pub open spec fn names_and_commas(params: Seq<ParamView>) -> Seq<char> {
    crate::text::concat(
        params.map_values(|p: ParamView| crate::text::filled(NAME_AND_COMMA@, seq![p.name])),
    )
}

fn render_names_and_commas(params: &Vec<Param>) -> (text: String)
    ensures
        text@ == names_and_commas(crate::text::views_of(params@)),
{
    each(
        params,
        render_name_and_comma,
        Ghost(|p: ParamView| crate::text::filled(NAME_AND_COMMA@, seq![p.name])),
    )
}

/// The handle's method that queues a command.
pub open spec fn sender_method(names: NamesView, i: int, command: CommandView) -> Seq<char> {
    let method = command.method_name;
    let index = usize_literal(i as nat);
    let variant = command.variant_name;
    let decls = param_decls(command.params);
    let args = param_names(command.params);
    match command.kind {
        CommandKindView::Plain => if command.params.len() == 0 {
            crate::text::filled(SEND_UNIT@, seq![method, index, names.command, variant])
        } else {
            crate::text::filled(
                SEND_TUPLE@,
                seq![method, index, names.command, variant, decls, args],
            )
        },
        CommandKindView::Immediate { output } => crate::text::filled(
            SEND_IMMEDIATE@,
            seq![
                method,
                index,
                names.command,
                variant,
                decls,
                names_and_commas(command.params),
                crate::text::filled(IMMEDIATE_REASON@, seq![output]),
            ],
        ),
        CommandKindView::Deferred { output, .. } => crate::text::filled(
            SEND_DEFERRED@,
            seq![
                method,
                index,
                names.command,
                variant,
                decls,
                args,
                crate::text::filled(DEFERRED_REASON@, seq![output]),
                names.service,
            ],
        ),
    }
}

fn render_sender_method(names: &Names, i: usize, command: &CommandMethod) -> (text: String)
    ensures
        text@ == sender_method(names@, i as int, command@),
{
    let method = command.method_name.as_str();
    let index = render_usize(i);
    let of = names.command.as_str();
    let variant = command.variant_name.as_str();
    let decls = render_param_decls(&command.params);
    let args = render_param_names(&command.params);
    match &command.kind {
        CommandKind::Plain => if command.params.len() == 0 {
            fill4(SEND_UNIT, method, index.as_str(), of, variant)
        } else {
            fill6(SEND_TUPLE, method, index.as_str(), of, variant, decls.as_str(), args.as_str())
        },
        CommandKind::Immediate { output } => fill7(
            SEND_IMMEDIATE,
            method,
            index.as_str(),
            of,
            variant,
            decls.as_str(),
            render_names_and_commas(&command.params).as_str(),
            fill1(IMMEDIATE_REASON, output.as_str()).as_str(),
        ),
        CommandKind::Deferred { output, .. } => fill8(
            SEND_DEFERRED,
            method,
            index.as_str(),
            of,
            variant,
            decls.as_str(),
            args.as_str(),
            fill1(DEFERRED_REASON, output.as_str()).as_str(),
            names.service.as_str(),
        ),
    }
}

/// The handle's methods that queue the commands.
pub open spec fn handle_impl(names: NamesView, commands: Seq<CommandView>) -> Seq<char> {
    crate::text::filled(
        IMPL@,
        seq![
            names.handle,
            crate::text::concat(
                commands.map(|i: int, c: CommandView| sender_method(names, i, c)),
            ),
        ],
    )
}

fn render_handle_impl(names: &Names, commands: &Vec<CommandMethod>) -> (text: String)
    ensures
        text@ == handle_impl(names@, crate::text::views_of(commands@)),
{
    let method = |i: usize, c: &CommandMethod| -> (text: String)
        ensures
            text@ == sender_method(names@, i as int, c@),
        { render_sender_method(names, i, c) };
    let methods = each_indexed(
        commands,
        method,
        Ghost(|i: int, c: CommandView| sender_method(names@, i, c)),
    );
    fill2(IMPL, names.handle.as_str(), methods.as_str())
}

/// The methods that conclude a deferred op; other commands have none.
pub open spec fn conclude_methods(command: CommandView) -> Seq<char> {
    match command.kind {
        CommandKindView::Deferred { output, .. } => crate::text::filled(
            CONCLUDE_METHODS@,
            seq![
                command.method_name,
                crate::text::filled(DEFERRED_KEY@, seq![output]),
                crate::text::filled(DEFERRED_REASON@, seq![output]),
            ],
        ),
        _ => seq![],
    }
}

fn render_conclude_methods(command: &CommandMethod) -> (text: String)
    ensures
        text@ == conclude_methods(command@),
{
    match &command.kind {
        CommandKind::Deferred { output, .. } => fill3(
            CONCLUDE_METHODS,
            command.method_name.as_str(),
            fill1(DEFERRED_KEY, output.as_str()).as_str(),
            fill1(DEFERRED_REASON, output.as_str()).as_str(),
        ),
        _ => {
            let empty = String::new();
            assert(empty@ =~= seq![]);
            empty
        },
    }
}

/// The service's methods that conclude its deferred ops.
pub open spec fn conclude_impl(names: NamesView, commands: Seq<CommandView>) -> Seq<char> {
    crate::text::filled(
        IMPL@,
        seq![
            names.service,
            crate::text::concat(commands.map_values(|c: CommandView| conclude_methods(c))),
        ],
    )
}

fn render_conclude_impl(names: &Names, commands: &Vec<CommandMethod>) -> (text: String)
    ensures
        text@ == conclude_impl(names@, crate::text::views_of(commands@)),
{
    let methods = each(
        commands,
        render_conclude_methods,
        Ghost(|c: CommandView| conclude_methods(c)),
    );
    fill2(IMPL, names.service.as_str(), methods.as_str())
}

/// The handle's statistics.
pub open spec fn metrics_impl(names: NamesView, commands: Seq<CommandView>) -> Seq<char> {
    crate::text::filled(
        METRICS_IMPL@,
        seq![names.handle, usize_literal(commands.len()), names.command],
    )
}

fn render_metrics_impl(names: &Names, commands: &Vec<CommandMethod>) -> (text: String)
    ensures
        text@ == metrics_impl(names@, crate::text::views_of(commands@)),
{
    let count = render_usize(commands.len());
    fill3(METRICS_IMPL, names.handle.as_str(), count.as_str(), names.command.as_str())
}

/// The code around a service's commands.
pub struct CommandInfra {
    pub command_enum: String,
    pub execute_impl: String,
    pub handle_impl: String,
    pub conclude_impl: String,
    pub metrics_impl: String,
}

/// Writes the command enum, the method that runs a command, the handle's
/// queueing methods, the methods that conclude deferred ops, and the
/// statistics.
pub fn generate_command_infra(names: &Names, commands: &Vec<CommandMethod>) -> (infra: CommandInfra)
    ensures
        infra.command_enum@ == command_enum(names@, crate::text::views_of(commands@)),
        infra.execute_impl@ == execute_impl(names@, crate::text::views_of(commands@)),
        infra.handle_impl@ == handle_impl(names@, crate::text::views_of(commands@)),
        infra.conclude_impl@ == conclude_impl(names@, crate::text::views_of(commands@)),
        infra.metrics_impl@ == metrics_impl(names@, crate::text::views_of(commands@)),
{
    CommandInfra {
        command_enum: render_command_enum(names, commands),
        execute_impl: render_execute_impl(names, commands),
        handle_impl: render_handle_impl(names, commands),
        conclude_impl: render_conclude_impl(names, commands),
        metrics_impl: render_metrics_impl(names, commands),
    }
}

} // verus!
