//! Command descriptors, their usage line, the owner gate and the execution
//! pipeline: gate, bind, handler.
use vstd::prelude::*;

use crate::action::{actions_model, Action, ActionModel};
use crate::binder::{args_model, bind, bind_spec, ArgModel, BindError, Bindings, CommandArg};
use crate::handlers::{handler_outcome, run_handler};
use crate::text::{contains_string, join_words};

verus! {

/// Which behaviour a command runs once it is allowed and its arguments bound.
#[derive(Clone, Copy, Debug, PartialEq, Eq, Structural)]
pub enum Handler {
    /// Sends the `text` argument to the reply target.
    Say,
    /// Kicks the `nick` argument from the channel, with the `reason` argument.
    Kick,
    /// Joins the `channel` argument and records it in the membership.
    Join,
    /// Leaves the `channel` argument (or the current channel) and drops it
    /// from the membership.
    Part,
}

/// A registered command: who may run it, its declared arguments and its
/// behaviour. `group` is kept as metadata only.
#[derive(Debug, PartialEq, Eq)]
pub struct Command {
    pub owner_only: bool,
    pub group: String,
    pub args: Vec<CommandArg>,
    pub handler: Handler,
}

/// A command as a value.
pub struct CommandModel {
    pub owner_only: bool,
    pub group: Seq<char>,
    pub args: Seq<ArgModel>,
    pub handler: Handler,
}

impl View for Command {
    type V = CommandModel;

    open spec fn view(&self) -> CommandModel {
        CommandModel {
            owner_only: self.owner_only,
            group: self.group@,
            args: args_model(self.args@),
            handler: self.handler,
        }
    }
}

/// What one invocation hands its handler.
pub struct CommandParameters<'a> {
    pub command: &'a Command,
    pub args: Bindings,
    pub target: String,
    pub sender: String,
}

/// How one declared argument shows in the usage line: `<name>` when
/// required, `[name]` when not.
pub open spec fn arg_usage(a: ArgModel) -> Seq<char> {
    if a.required {
        seq!['<'] + a.name + seq!['>']
    } else {
        seq!['['] + a.name + seq![']']
    }
}

/// The usage line: `USAGE`, then each declared argument after one space.
pub open spec fn usage_of(args: Seq<ArgModel>) -> Seq<char>
    decreases args.len(),
{
    if args.len() == 0 {
        "USAGE"@
    } else {
        usage_of(args.drop_last()) + seq![' '] + arg_usage(args.last())
    }
}

/// The notice that a sender without permission gets.
pub open spec fn denied_text() -> Seq<char> {
    "You don't have permission to use that command."@
}

/// Whether `sender` may run a command: it is open to all, or `sender` is
/// one of `owners`, exactly.
pub open spec fn allowed(owner_only: bool, owners: Seq<Seq<char>>, sender: Seq<char>) -> bool {
    !owner_only || owners.contains(sender)
}

/// What running `cmd` on `tail` does: the actions in order, and the channel
/// membership afterwards. A sender who may not run it gets one notice; a
/// tail that does not bind gets the usage line as one notice; else the
/// handler runs.
pub open spec fn execute_spec(
    cmd: CommandModel,
    tail: Seq<char>,
    owners: Seq<Seq<char>>,
    nickname: Seq<char>,
    channels: Seq<Seq<char>>,
    target: Seq<char>,
    sender: Seq<char>,
) -> (Seq<ActionModel>, Seq<Seq<char>>) {
    if !allowed(cmd.owner_only, owners, sender) {
        (seq![ActionModel::Notice { target: sender, text: denied_text() }], channels)
    } else {
        match bind_spec(cmd.args, tail) {
            Err(_) => (
                seq![ActionModel::Notice { target: sender, text: usage_of(cmd.args) }],
                channels,
            ),
            Ok(b) => handler_outcome(
                cmd.handler,
                usage_of(cmd.args),
                b,
                target,
                sender,
                nickname,
                channels,
            ),
        }
    }
}

/// Whether `sender` is one of `owners`.
pub fn is_owner(owners: &Vec<String>, sender: &String) -> (r: bool)
    ensures
        r == owners.deep_view().contains(sender@),
{
    contains_string(owners, sender)
}

/// The permission gate: a command open to all is allowed to anyone, an
/// owner-only one to the owners alone.
pub fn authorize(cmd: &Command, sender: &String, owners: &Vec<String>) -> (r: bool)
    ensures
        r == allowed(cmd.owner_only, owners.deep_view(), sender@),
{
    !cmd.owner_only || is_owner(owners, sender)
}

impl Command {
    pub fn new(owner_only: bool, group: String, args: Vec<CommandArg>, handler: Handler) -> (r: Self)
        ensures
            r.owner_only == owner_only,
            r.group == group,
            r.args == args,
            r.handler == handler,
    {
        Command { owner_only, group, args, handler }
    }

    /// Binds the words of `input` to this command's arguments.
    pub fn arguments(&self, input: String) -> (r: Result<Bindings, BindError>)
        ensures
            crate::binder::bind_result_is(r, bind_spec(self@.args, input@)),
    {
        bind(&self.args, input.as_str())
    }

    /// The usage line, e.g. `USAGE <nick> [reason]`.
    pub fn help(&self) -> (r: String)
        ensures
            r@ == usage_of(self@.args),
    {
        let mut help = String::from_str("USAGE");
        let mut i: usize = 0;
        while i < self.args.len()
            invariant
                i <= self.args.len(),
                help@ == usage_of(args_model(self.args@).take(i as int)),
            decreases self.args.len() - i,
        {
            let ghost all = args_model(self.args@);
            assert(all.take(i + 1).drop_last() =~= all.take(i as int));
            assert(all.take(i + 1).last() == self.args@[i as int]@);
            let arg = &self.args[i];
            help.append(" ");
            if arg.required {
                help.append("<");
                help.append(arg.name.as_str());
                help.append(">");
            } else {
                help.append("[");
                help.append(arg.name.as_str());
                help.append("]");
            }
            proof {
                reveal_strlit(" ");
                reveal_strlit("<");
                reveal_strlit(">");
                reveal_strlit("[");
                reveal_strlit("]");
                assert(help@ =~= usage_of(all.take(i as int)) + seq![' '] + arg_usage(all[i as int]));
            }
            i = i + 1;
        }
        assert(args_model(self.args@).take(i as int) =~= args_model(self.args@));
        help
    }

    /// Executes the command for `sender` with replies to `target`: permission
    /// check, argument binding of `input`, handler; each step stops the rest
    /// on failure. The result lists the actions to perform; `channels`
    /// follows join and part.
    pub fn execute(
        &self,
        input: String,
        owners: &Vec<String>,
        nickname: &String,
        channels: &mut Vec<String>,
        target: String,
        sender: String,
    ) -> (r: Vec<Action>)
        ensures
            (actions_model(r@), final(channels).deep_view()) == execute_spec(
                self@,
                input@,
                owners.deep_view(),
                nickname@,
                old(channels).deep_view(),
                target@,
                sender@,
            ),
    {
        if !authorize(self, &sender, owners) {
            let text = String::from_str("You don't have permission to use that command.");
            let r = vec![Action::Notice { target: sender, text }];
            assert(actions_model(r@) =~= seq![ActionModel::Notice { target: sender@, text: denied_text() }]);
            return r;
        }
        match self.arguments(input) {
            Err(_) => {
                let r = vec![Action::Notice { target: sender, text: self.help() }];
                assert(actions_model(r@) =~= seq![ActionModel::Notice { target: sender@, text: usage_of(self@.args) }]);
                r
            },
            Ok(args) => {
                let params = CommandParameters { command: self, args, target, sender };
                run_handler(&params, nickname, channels)
            },
        }
    }
}

} // verus!
